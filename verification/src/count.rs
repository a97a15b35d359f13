//! The count record of one source and its accumulation.

use vstd::prelude::*;

verus! {

/// The mathematical value of a [`Count`]: three unbounded naturals.
pub struct Tally {
    pub symbols: nat,
    pub words: nat,
    pub lines: nat,
}

impl Tally {
    /// The tally with nothing counted.
    pub open spec fn zero() -> Tally {
        Tally { symbols: 0, words: 0, lines: 0 }
    }

    /// Field-wise sum.
    pub open spec fn plus(self, other: Tally) -> Tally {
        Tally {
            symbols: self.symbols + other.symbols,
            words: self.words + other.words,
            lines: self.lines + other.lines,
        }
    }

    /// Every field is small enough for a [`Count`] to hold.
    pub open spec fn fits(self) -> bool {
        self.symbols <= u64::MAX && self.words <= u64::MAX && self.lines <= u64::MAX
    }
}

/// Symbols, words and lines counted in one source, or summed over several.
#[derive(Clone, Copy, Debug, PartialEq, Eq, Structural)]
pub struct Count {
    pub symbols: u64,
    pub words: u64,
    pub lines: u64,
}

impl View for Count {
    type V = Tally;

    open spec fn view(&self) -> Tally {
        Tally { symbols: self.symbols as nat, words: self.words as nat, lines: self.lines as nat }
    }
}

impl Default for Count {
    fn default() -> (count: Count)
        ensures
            count@ == Tally::zero(),
    {
        Count { symbols: 0, words: 0, lines: 0 }
    }
}

impl Count {
    /// The count of an empty source.
    pub fn new() -> (count: Count)
        ensures
            count@ == Tally::zero(),
    {
        Count { symbols: 0, words: 0, lines: 0 }
    }

    /// Field-wise sum, or `None` exactly when one of the three sums does
    /// not fit in 64 bits.
    pub fn checked_add(&self, other: &Count) -> (sum: Option<Count>)
        ensures
            sum is Some <==> self@.plus(other@).fits(),
            sum matches Some(c) ==> c@ == self@.plus(other@),
    {
        let symbols = match self.symbols.checked_add(other.symbols) {
            Some(n) => n,
            None => { return None; },
        };
        let words = match self.words.checked_add(other.words) {
            Some(n) => n,
            None => { return None; },
        };
        let lines = match self.lines.checked_add(other.lines) {
            Some(n) => n,
            None => { return None; },
        };
        Some(Count { symbols, words, lines })
    }

    /// In-place accumulation: each field of `other` is added to the same
    /// field of `self`.
    pub fn add_assign(&mut self, other: &Count)
        requires
            old(self)@.plus(other@).fits(),
        ensures
            final(self)@ == old(self)@.plus(other@),
    {
        self.symbols = self.symbols + other.symbols;
        self.words = self.words + other.words;
        self.lines = self.lines + other.lines;
    }
}

} // verus!
