//! What to count and where to read it from, as chosen on the command line.

use vstd::prelude::*;

verus! {

/// How the symbols of a source are counted.
#[derive(Clone, Copy, Debug, PartialEq, Eq, Structural)]
pub enum Symbols {
    /// Every byte is a symbol.
    Bytes,
    /// Every decoded character is a symbol.
    Characters,
    /// Symbols are not counted.
    Off,
}

/// One of the four counting options.
#[derive(Clone, Copy, Debug, PartialEq, Eq, Structural)]
pub enum Flag {
    Bytes,
    Characters,
    Words,
    Lines,
}

/// The options and source names found on a command line.
#[derive(Clone, Debug)]
pub struct Matches {
    pub bytes: bool,
    pub characters: bool,
    pub words: bool,
    pub lines: bool,
    /// The source names, in the order given. Empty when none was named.
    pub input: Vec<String>,
}

impl Matches {
    /// `bytes` and `characters` are never selected together.
    pub open spec fn wf(&self) -> bool {
        !(self.bytes && self.characters)
    }

    /// A command line without options and without source names.
    pub fn new() -> (matches: Matches)
        ensures
            matches.wf(),
            !matches.bytes,
            !matches.characters,
            !matches.words,
            !matches.lines,
            matches.input@.len() == 0,
    {
        Matches { bytes: false, characters: false, words: false, lines: false, input: Vec::new() }
    }

    /// Records one option. `Bytes` cancels an earlier `Characters` and the
    /// other way round, so the one given last is the one in force.
    pub fn select(&mut self, flag: Flag)
        ensures
            old(self).wf() ==> final(self).wf(),
            final(self).input == old(self).input,
            final(self).bytes == (flag == Flag::Bytes || (old(self).bytes && flag
                != Flag::Characters)),
            final(self).characters == (flag == Flag::Characters || (old(self).characters && flag
                != Flag::Bytes)),
            final(self).words == (old(self).words || flag == Flag::Words),
            final(self).lines == (old(self).lines || flag == Flag::Lines),
    {
        match flag {
            Flag::Bytes => {
                self.bytes = true;
                self.characters = false;
            },
            Flag::Characters => {
                self.characters = true;
                self.bytes = false;
            },
            Flag::Words => {
                self.words = true;
            },
            Flag::Lines => {
                self.lines = true;
            },
        }
    }

    /// Appends one source name.
    pub fn add_input(&mut self, name: String)
        ensures
            final(self).input@ == old(self).input@.push(name),
            final(self).bytes == old(self).bytes,
            final(self).characters == old(self).characters,
            final(self).words == old(self).words,
            final(self).lines == old(self).lines,
    {
        self.input.push(name);
    }

    /// The symbol mode that the options ask for, before any default applies.
    pub open spec fn requested_symbols(&self) -> Symbols {
        if self.bytes {
            Symbols::Bytes
        } else if self.characters {
            Symbols::Characters
        } else {
            Symbols::Off
        }
    }

    /// No counting option was given at all.
    pub open spec fn nothing_requested(&self) -> bool {
        !self.bytes && !self.characters && !self.words && !self.lines
    }
}

/// The configuration of one run.
#[derive(Clone, Debug)]
pub struct Config {
    pub symbols: Symbols,
    pub words: bool,
    pub lines: bool,
    /// The single source is standard input.
    pub stdin: bool,
    /// The names of the sources when they are files.
    pub filenames: Option<Vec<String>>,
}

impl Config {
    /// At least one column is counted, and the sources are either standard
    /// input or a non-empty list of names.
    pub open spec fn wf(&self) -> bool {
        &&& self.has_column()
        &&& self.stdin <==> self.filenames is None
        &&& self.filenames matches Some(names) ==> names@.len() > 0
    }

    /// At least one of symbols, words and lines is counted.
    pub open spec fn has_column(&self) -> bool {
        self.symbols != Symbols::Off || self.words || self.lines
    }

    /// The display names of the sources, in order: `stdin` alone when the
    /// source is standard input, else the names of the files.
    pub open spec fn display_names(&self) -> Seq<Seq<char>> {
        if self.stdin {
            seq!["stdin"@]
        } else {
            match self.filenames {
                Some(names) => names.deep_view(),
                None => Seq::empty(),
            }
        }
    }

    /// The display names of the sources, by which their rows are labelled.
    pub fn source_names(&self) -> (names: Vec<String>)
        ensures
            names.deep_view() == self.display_names(),
    {
        if self.stdin {
            let mut names: Vec<String> = Vec::new();
            names.push(String::from_str("stdin"));
            names
        } else {
            match &self.filenames {
                Some(files) => copy_names(files),
                None => {
                    let names: Vec<String> = Vec::new();
                    names
                },
            }
        }
    }

    /// The configuration that a command line stands for. Without any
    /// counting option it is bytes, words and lines; without a source name
    /// the source is standard input.
    pub fn from_matches(matches: &Matches) -> (config: Config)
        ensures
            config.wf(),
            config.symbols == (if matches.nothing_requested() {
                Symbols::Bytes
            } else {
                matches.requested_symbols()
            }),
            config.words == (matches.words || matches.nothing_requested()),
            config.lines == (matches.lines || matches.nothing_requested()),
            config.stdin == (matches.input@.len() == 0),
            config.filenames matches Some(names) ==> names.deep_view()
                == matches.input.deep_view(),
    {
        let mut symbols = if matches.bytes {
            Symbols::Bytes
        } else if matches.characters {
            Symbols::Characters
        } else {
            Symbols::Off
        };
        let mut words = matches.words;
        let mut lines = matches.lines;
        let (stdin, filenames) = if matches.input.len() > 0 {
            (false, Some(copy_names(&matches.input)))
        } else {
            (true, None)
        };
        let nothing = match symbols {
            Symbols::Off => !words && !lines,
            _ => false,
        };
        if nothing {
            symbols = Symbols::Bytes;
            words = true;
            lines = true;
        }
        Config { symbols, words, lines, stdin, filenames }
    }
}

/// A copy of a list of names.
fn copy_names(names: &Vec<String>) -> (copy: Vec<String>)
    ensures
        copy@.len() == names@.len(),
        copy.deep_view() == names.deep_view(),
{
    let mut copy: Vec<String> = Vec::new();
    let mut i: usize = 0;
    while i < names.len()
        invariant
            i <= names.len(),
            copy.len() == i,
            forall|j: int| 0 <= j < i ==> copy[j]@ == names[j]@,
        decreases names.len() - i,
    {
        copy.push(names[i].clone());
        i += 1;
    }
    copy
}

} // verus!
