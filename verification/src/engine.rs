//! The counting engine: one forward pass over the bytes of a source.

use vstd::prelude::*;
use vstd::utf8::*;
use crate::config::{Config, Symbols};
use crate::count::{Count, Tally};
use crate::text::{
    decode_lossy, first_char, first_len, is_ascii_bytes, is_space, is_space_code, is_whitespace,
    lemma_decode_lossy_concat, lemma_decode_lossy_last, lemma_decode_lossy_of_ascii,
    lemma_decode_lossy_of_valid, lemma_line_count_concat, lemma_whitespace_insertion,
    lemma_word_count_concat, line_count, newlines, word_count, word_starts, NEWLINE,
};

verus! {

/// What counting the stream `data` under `config` yields: the number of
/// symbols in the chosen mode, of words and of lines, each zero when it
/// is not asked for.
pub open spec fn tally(data: Seq<u8>, config: Config) -> Tally {
    Tally {
        symbols: match config.symbols {
            Symbols::Bytes => data.len(),
            Symbols::Characters => decode_lossy(data).len(),
            Symbols::Off => 0,
        },
        words: if config.words {
            word_count(decode_lossy(data))
        } else {
            0
        },
        lines: if config.lines {
            line_count(data)
        } else {
            0
        },
    }
}

/// Counts the contents of one source. The bytes need not be well-formed
/// text: see [`decode_lossy`] for what a character is then.
pub fn count(data: &[u8], config: &Config) -> (count: Count)
    ensures
        count@ == tally(data@, *config),
{
    let needs_text = config.words || matches!(config.symbols, Symbols::Characters);
    let (chars, words) = if needs_text {
        scan_text(data)
    } else {
        (0, 0)
    };
    let symbols: usize = match config.symbols {
        Symbols::Bytes => data.len(),
        Symbols::Characters => chars,
        Symbols::Off => 0,
    };
    let lines: usize = if config.lines {
        scan_lines(data)
    } else {
        0
    };
    Count {
        symbols: symbols as u64,
        words: if config.words {
            words as u64
        } else {
            0
        },
        lines: lines as u64,
    }
}

/// An empty stream has no lines, no words and no symbols.
pub proof fn lemma_empty_stream(config: Config)
    ensures
        tally(Seq::empty(), config) == Tally::zero(),
        config.lines ==> tally(Seq::empty(), config).lines == 0,
{
}

/// In `Bytes` mode the symbols are the bytes of the stream, line
/// terminators included.
pub proof fn lemma_bytes_mode(data: Seq<u8>, config: Config)
    requires
        config.symbols == Symbols::Bytes,
    ensures
        tally(data, config).symbols == data.len(),
{
}

/// On a stream of ASCII bytes `Characters` mode counts what `Bytes`
/// mode counts.
pub proof fn lemma_characters_of_ascii(data: Seq<u8>, config: Config)
    requires
        is_ascii_bytes(data),
        config.symbols == Symbols::Characters,
    ensures
        tally(data, config).symbols == data.len(),
        tally(data, config).symbols == tally(
            data,
            Config { symbols: Symbols::Bytes, ..config },
        ).symbols,
{
    lemma_decode_lossy_of_ascii(data);
}

/// On well-formed UTF-8 the characters and the words are those of the
/// text that the stream encodes.
pub proof fn lemma_well_formed_text(data: Seq<u8>, config: Config)
    requires
        valid_utf8(data),
    ensures
        config.symbols == Symbols::Characters ==> tally(data, config).symbols == decode_utf8(
            data,
        ).len(),
        config.words ==> tally(data, config).words == word_count(decode_utf8(data)),
{
    lemma_decode_lossy_of_valid(data);
}

/// A stream may be counted line by line: cut at the end of a line, it
/// counts as its two pieces together.
pub proof fn lemma_count_by_lines(head: Seq<u8>, tail: Seq<u8>, config: Config)
    requires
        head.len() > 0 ==> head.last() == NEWLINE,
    ensures
        tally(head + tail, config) == tally(head, config).plus(tally(tail, config)),
{
    lemma_decode_lossy_concat(head, tail);
    lemma_line_count_concat(head, tail);
    lemma_word_count_concat(decode_lossy(head), decode_lossy(tail));
    if head.len() > 0 {
        lemma_decode_lossy_last(head);
    }
}

/// One more space after a whitespace byte of ASCII leaves the number of
/// words as it is.
pub proof fn lemma_extra_space(head: Seq<u8>, tail: Seq<u8>, config: Config)
    requires
        head.len() > 0,
        head.last() <= 0x7f,
        is_space_code(head.last() as u32),
    ensures
        tally(head + seq![0x20u8] + tail, config).words == tally(head + tail, config).words,
{
    let space = seq![0x20u8];
    let left = decode_lossy(head);
    let right = decode_lossy(tail);
    lemma_decode_lossy_last(head);
    lemma_decode_lossy_concat(head, tail);
    lemma_decode_lossy_concat(head, space);
    lemma_decode_lossy_concat(head + space, tail);
    lemma_decode_lossy_of_ascii(space);
    assert(decode_lossy(head + space + tail) =~= (left + right).insert(left.len() as int, ' '));
    lemma_whitespace_insertion(left + right, left.len() as int, ' ');
}

/// Tells whether `byte` can follow the leading byte of a scalar.
fn is_continuation(byte: u8) -> (yes: bool)
    ensures
        yes == is_continuation_byte(byte),
{
    0x80 <= byte && byte <= 0xbf
}

/// Decodes the character that starts at `at`: its code point and the
/// number of bytes it takes up.
fn unit_at(data: &[u8], at: usize) -> (unit: (u32, usize))
    requires
        at < data@.len(),
    ensures
        unit.0 == first_char(data@.skip(at as int)) as u32,
        unit.1 == first_len(data@.skip(at as int)),
        1 <= unit.1 <= data@.len() - at,
{
    let left: usize = data.len() - at;
    let b0: u8 = data[at];
    if b0 <= 0x7f {
        return ((b0 & 0x7f) as u32, 1);
    }
    if 0xc0 <= b0 && b0 <= 0xdf {
        if left >= 2 && is_continuation(data[at + 1]) {
            let b1: u8 = data[at + 1];
            let code: u32 = (((b0 & 0x1f) as u32) << 6) | ((b1 & 0x3f) as u32);
            assert((((b0 & 0x1f) as u32) << 6) | ((b1 & 0x3f) as u32) <= 0x7ff) by (bit_vector);
            if 0x80 <= code && !(0xd800 <= code && code <= 0xdfff) {
                return (code, 2);
            }
        }
    } else if 0xe0 <= b0 && b0 <= 0xef {
        if left >= 3 && is_continuation(data[at + 1]) && is_continuation(data[at + 2]) {
            let b1: u8 = data[at + 1];
            let b2: u8 = data[at + 2];
            let code: u32 = (((b0 & 0x0f) as u32) << 12) | (((b1 & 0x3f) as u32) << 6) | ((b2
                & 0x3f) as u32);
            assert((((b0 & 0x0f) as u32) << 12) | (((b1 & 0x3f) as u32) << 6) | ((b2 & 0x3f) as u32)
                <= 0xffff) by (bit_vector);
            if 0x800 <= code && !(0xd800 <= code && code <= 0xdfff) {
                return (code, 3);
            }
        }
    } else if 0xf0 <= b0 && b0 <= 0xf7 {
        if left >= 4 && is_continuation(data[at + 1]) && is_continuation(data[at + 2])
            && is_continuation(data[at + 3]) {
            let b1: u8 = data[at + 1];
            let b2: u8 = data[at + 2];
            let b3: u8 = data[at + 3];
            let code: u32 = (((b0 & 0x07) as u32) << 18) | (((b1 & 0x3f) as u32) << 12) | (((b2
                & 0x3f) as u32) << 6) | ((b3 & 0x3f) as u32);
            if 0x10000 <= code && code <= 0x10ffff {
                return (code, 4);
            }
        }
    }
    (0xfffd, 1)
}

/// Counts the characters and the words of `data` in one pass.
fn scan_text(data: &[u8]) -> (found: (usize, usize))
    ensures
        found.0 == decode_lossy(data@).len(),
        found.1 == word_count(decode_lossy(data@)),
{
    let ghost text = decode_lossy(data@);
    let mut at: usize = 0;
    let mut chars: usize = 0;
    let mut words: usize = 0;
    let mut in_space: bool = true;
    assert(data@.skip(0) == data@);
    while at < data.len()
        invariant
            text == decode_lossy(data@),
            at <= data@.len(),
            words <= chars <= at,
            chars <= text.len(),
            text.skip(chars as int) == decode_lossy(data@.skip(at as int)),
            words == word_starts(text, chars as int),
            in_space == (chars == 0 || is_whitespace(text[chars - 1])),
        decreases data@.len() - at,
    {
        let (code, len) = unit_at(data, at);
        proof {
            let rest = data@.skip(at as int);
            let tail = text.skip(chars as int);
            assert(rest.skip(len as int) == data@.skip(at + len));
            assert(tail == seq![first_char(rest)] + decode_lossy(rest.skip(len as int)));
            assert(text[chars as int] == tail[0]);
            assert(text.skip(chars + 1) == tail.skip(1));
        }
        let space = is_space(code);
        if in_space && !space {
            words += 1;
        }
        in_space = space;
        chars += 1;
        at += len;
    }
    (chars, words)
}

/// Counts the lines of `data`.
fn scan_lines(data: &[u8]) -> (lines: usize)
    ensures
        lines == line_count(data@),
{
    let mut at: usize = 0;
    let mut ends: usize = 0;
    while at < data.len()
        invariant
            ends <= at <= data@.len(),
            at > 0 && data@[at - 1] != NEWLINE ==> ends < at,
            ends == newlines(data@, at as int),
        decreases data@.len() - at,
    {
        if data[at] == NEWLINE {
            ends += 1;
        }
        at += 1;
    }
    if data.len() > 0 && data[data.len() - 1] != NEWLINE {
        ends + 1
    } else {
        ends
    }
}

} // verus!
