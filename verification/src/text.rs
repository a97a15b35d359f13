//! The mathematical model of a byte stream as text: its lines, its
//! characters and its words.

use vstd::prelude::*;
use vstd::utf8::*;

verus! {

/// The byte that ends a line.
pub const NEWLINE: u8 = 0x0a;

/// The character that stands for a byte which begins no well-formed
/// UTF-8 scalar.
pub const REPLACEMENT: char = '\u{fffd}';

/// The code points with the Unicode property `White_Space`.
pub open spec fn is_space_code(code: u32) -> bool {
    ||| 0x09 <= code <= 0x0d
    ||| code == 0x20
    ||| code == 0x85
    ||| code == 0xa0
    ||| code == 0x1680
    ||| 0x2000 <= code <= 0x200a
    ||| code == 0x2028
    ||| code == 0x2029
    ||| code == 0x202f
    ||| code == 0x205f
    ||| code == 0x3000
}

/// Whitespace separates words.
pub open spec fn is_whitespace(c: char) -> bool {
    is_space_code(c as u32)
}

/// The character that the front of `bytes` decodes to: the scalar that
/// a well-formed UTF-8 sequence encodes, else [`REPLACEMENT`] for the
/// first byte alone.
pub open spec fn first_char(bytes: Seq<u8>) -> char {
    if valid_first_scalar(bytes) {
        decode_first_scalar(bytes) as char
    } else {
        REPLACEMENT
    }
}

/// The number of bytes that [`first_char`] takes up.
pub open spec fn first_len(bytes: Seq<u8>) -> int {
    if valid_first_scalar(bytes) {
        length_of_first_scalar(bytes)
    } else {
        1
    }
}

/// The characters of a byte stream. Well-formed UTF-8 decodes to the
/// characters it encodes; every byte that begins no well-formed scalar
/// counts as one character by itself.
pub open spec fn decode_lossy(bytes: Seq<u8>) -> Seq<char>
    decreases bytes.len(),
{
    if bytes.len() == 0 {
        Seq::empty()
    } else {
        seq![first_char(bytes)] + decode_lossy(bytes.skip(first_len(bytes)))
    }
}

/// A word starts at `i`: a character that is no whitespace and follows
/// whitespace or nothing.
pub open spec fn is_word_start(text: Seq<char>, i: int) -> bool {
    &&& 0 <= i < text.len()
    &&& !is_whitespace(text[i])
    &&& (i == 0 || is_whitespace(text[i - 1]))
}

/// The number of words that start among the first `n` characters.
pub open spec fn word_starts(text: Seq<char>, n: int) -> nat
    decreases n,
{
    if n <= 0 {
        0
    } else {
        word_starts(text, n - 1) + if is_word_start(text, n - 1) {
            1nat
        } else {
            0nat
        }
    }
}

/// The number of words: maximal runs of characters that are no
/// whitespace.
pub open spec fn word_count(text: Seq<char>) -> nat {
    word_starts(text, text.len() as int)
}

/// The number of line terminators among the first `n` bytes.
pub open spec fn newlines(data: Seq<u8>, n: int) -> nat
    decreases n,
{
    if n <= 0 {
        0
    } else {
        newlines(data, n - 1) + if data[n - 1] == NEWLINE {
            1nat
        } else {
            0nat
        }
    }
}

/// The number of lines: one for each terminator, and one more for what
/// follows the last terminator, if anything does.
pub open spec fn line_count(data: Seq<u8>) -> nat {
    newlines(data, data.len() as int) + if data.len() > 0 && data.last() != NEWLINE {
        1nat
    } else {
        0nat
    }
}

/// A word runs across the seam between `left` and `right`.
pub open spec fn splits_word(left: Seq<char>, right: Seq<char>) -> bool {
    &&& left.len() > 0
    &&& right.len() > 0
    &&& !is_whitespace(left.last())
    &&& !is_whitespace(right[0])
}

/// Every byte is below 0x80.
pub open spec fn is_ascii_bytes(data: Seq<u8>) -> bool {
    forall|i: int| 0 <= i < data.len() ==> data[i] <= 0x7f
}

/// Well-formed UTF-8 decodes to the characters that it encodes.
pub proof fn lemma_decode_lossy_of_valid(bytes: Seq<u8>)
    requires
        valid_utf8(bytes),
    ensures
        decode_lossy(bytes) == decode_utf8(bytes),
    decreases bytes.len(),
{
    if bytes.len() > 0 {
        lemma_decode_lossy_of_valid(pop_first_scalar(bytes));
    }
}

/// A stream has at most as many characters as bytes.
pub proof fn lemma_chars_within_bytes(bytes: Seq<u8>)
    ensures
        decode_lossy(bytes).len() <= bytes.len(),
    decreases bytes.len(),
{
    if bytes.len() > 0 {
        lemma_chars_within_bytes(bytes.skip(first_len(bytes)));
    }
}

/// Every byte of an ASCII stream is one character, the one with the
/// byte's value.
pub proof fn lemma_decode_lossy_of_ascii(bytes: Seq<u8>)
    requires
        is_ascii_bytes(bytes),
    ensures
        decode_lossy(bytes).len() == bytes.len(),
        forall|i: int| 0 <= i < bytes.len() ==> decode_lossy(bytes)[i] as u32 == bytes[i],
    decreases bytes.len(),
{
    if bytes.len() > 0 {
        let b0 = bytes[0];
        assert((b0 & 0x7f) as u32 == b0) by (bit_vector)
            requires
                b0 <= 0x7f,
        ;
        let rest = bytes.skip(1);
        lemma_decode_lossy_of_ascii(rest);
        assert forall|i: int| 0 <= i < bytes.len() implies decode_lossy(bytes)[i] as u32
            == bytes[i] by {
            if i > 0 {
                assert(rest[i - 1] == bytes[i]);
            }
        }
    }
}

/// What follows a byte below 0x80 has no part in how the bytes up to it
/// decode: the first character of `head + tail` is that of `head`.
proof fn lemma_first_unit_of_head(head: Seq<u8>, tail: Seq<u8>)
    requires
        head.len() > 0,
        head.last() <= 0x7f,
    ensures
        first_char(head + tail) == first_char(head),
        first_len(head + tail) == first_len(head),
        1 <= first_len(head) <= head.len(),
{
}

/// A stream cut after a byte below 0x80 decodes piece by piece.
pub proof fn lemma_decode_lossy_concat(head: Seq<u8>, tail: Seq<u8>)
    requires
        head.len() > 0 ==> head.last() <= 0x7f,
    ensures
        decode_lossy(head + tail) == decode_lossy(head) + decode_lossy(tail),
    decreases head.len(),
{
    if head.len() > 0 {
        lemma_first_unit_of_head(head, tail);
        let k = first_len(head);
        assert((head + tail).skip(k) =~= head.skip(k) + tail);
        lemma_decode_lossy_concat(head.skip(k), tail);
    }
}

/// A stream that ends in a byte below 0x80 ends in the character with
/// that byte's value.
pub proof fn lemma_decode_lossy_last(bytes: Seq<u8>)
    requires
        bytes.len() > 0,
        bytes.last() <= 0x7f,
    ensures
        decode_lossy(bytes).len() > 0,
        decode_lossy(bytes).last() as u32 == bytes.last(),
    decreases bytes.len(),
{
    lemma_first_unit_of_head(bytes, Seq::empty());
    let k = first_len(bytes);
    let rest = bytes.skip(k);
    if rest.len() == 0 {
        let b0 = bytes[0];
        assert((b0 & 0x7f) as u32 == b0) by (bit_vector)
            requires
                b0 <= 0x7f,
        ;
        assert(decode_lossy(rest) =~= Seq::empty());
    } else {
        lemma_decode_lossy_last(rest);
    }
}

/// The words that start in the front part of a text do not depend on
/// what follows it.
proof fn lemma_word_starts_in_left(left: Seq<char>, right: Seq<char>, n: int)
    requires
        0 <= n <= left.len(),
    ensures
        word_starts(left + right, n) == word_starts(left, n),
    decreases n,
{
    if n > 0 {
        lemma_word_starts_in_left(left, right, n - 1);
    }
}

/// The words that start in the back part of a text are those of the
/// back part alone, but for one that runs across the seam.
proof fn lemma_word_starts_in_right(left: Seq<char>, right: Seq<char>, m: int)
    requires
        0 <= m <= right.len(),
    ensures
        word_starts(left + right, left.len() + m) + (if m > 0 && splits_word(left, right) {
            1nat
        } else {
            0nat
        }) == word_count(left) + word_starts(right, m),
    decreases m,
{
    if m == 0 {
        lemma_word_starts_in_left(left, right, left.len() as int);
    } else {
        lemma_word_starts_in_right(left, right, m - 1);
    }
}

/// The words of two texts put together are the words of each, less
/// one where a word runs across the seam.
pub proof fn lemma_word_count_concat(left: Seq<char>, right: Seq<char>)
    ensures
        word_count(left + right) + (if splits_word(left, right) {
            1nat
        } else {
            0nat
        }) == word_count(left) + word_count(right),
{
    lemma_word_starts_in_right(left, right, right.len() as int);
}

/// Whitespace put into a text changes the number of words only where
/// it cuts a word in two: there it adds one word.
pub proof fn lemma_whitespace_insertion(text: Seq<char>, at: int, space: char)
    requires
        0 <= at <= text.len(),
        is_whitespace(space),
    ensures
        word_count(text.insert(at, space)) == word_count(text) + (if splits_word(
            text.take(at),
            text.skip(at),
        ) {
            1nat
        } else {
            0nat
        }),
        at == 0 || at == text.len() || is_whitespace(text[at - 1]) || is_whitespace(text[at])
            ==> word_count(text.insert(at, space)) == word_count(text),
{
    let left = text.take(at);
    let right = text.skip(at);
    let mid = seq![space];
    assert(text =~= left + right);
    assert(text.insert(at, space) =~= (left + mid) + right);
    lemma_word_count_concat(left, right);
    lemma_word_count_concat(left, mid);
    lemma_word_count_concat(left + mid, right);
    assert(word_count(mid) == 0) by {
        reveal_with_fuel(word_starts, 2);
    }
}

/// The text with every run of whitespace cut down to its first
/// character.
pub open spec fn squeeze(text: Seq<char>) -> Seq<char>
    decreases text.len(),
{
    if text.len() == 0 {
        Seq::empty()
    } else if text.len() >= 2 && is_whitespace(text.last()) && is_whitespace(
        text[text.len() - 2],
    ) {
        squeeze(text.drop_last())
    } else {
        squeeze(text.drop_last()).push(text.last())
    }
}

/// A squeezed text ends as the text does, and has no two whitespace
/// characters in a row.
proof fn lemma_squeeze_shape(text: Seq<char>)
    ensures
        squeeze(text).len() <= text.len(),
        text.len() > 0 ==> squeeze(text).len() > 0 && is_whitespace(squeeze(text).last())
            == is_whitespace(text.last()),
        forall|i: int|
            0 < i < squeeze(text).len() ==> !(is_whitespace(squeeze(text)[i - 1])
                && is_whitespace(#[trigger] squeeze(text)[i])),
    decreases text.len(),
{
    if text.len() > 0 {
        lemma_squeeze_shape(text.drop_last());
    }
}

/// Squeezing a text keeps its number of words.
pub proof fn lemma_squeeze_keeps_words(text: Seq<char>)
    ensures
        word_count(squeeze(text)) == word_count(text),
    decreases text.len(),
{
    if text.len() > 0 {
        let front = text.drop_last();
        let last = seq![text.last()];
        lemma_squeeze_keeps_words(front);
        lemma_squeeze_shape(front);
        assert(text =~= front + last);
        lemma_word_count_concat(front, last);
        assert(word_count(last) == (if is_whitespace(text.last()) {
            0nat
        } else {
            1nat
        })) by {
            reveal_with_fuel(word_starts, 2);
        }
        if !(text.len() >= 2 && is_whitespace(text.last()) && is_whitespace(
            text[text.len() - 2],
        )) {
            assert(squeeze(text) =~= squeeze(front) + last);
            lemma_word_count_concat(squeeze(front), last);
        }
    }
}

/// Squeezing twice is squeezing once.
pub proof fn lemma_squeeze_twice(text: Seq<char>)
    ensures
        squeeze(squeeze(text)) == squeeze(text),
{
    lemma_squeeze_shape(text);
    lemma_squeeze_of_squeezed(squeeze(text));
}

/// A text without two whitespace characters in a row is its own squeeze.
proof fn lemma_squeeze_of_squeezed(text: Seq<char>)
    requires
        forall|i: int|
            0 < i < text.len() ==> !(is_whitespace(text[i - 1]) && is_whitespace(
                #[trigger] text[i],
            )),
    ensures
        squeeze(text) == text,
    decreases text.len(),
{
    if text.len() > 0 {
        let front = text.drop_last();
        assert forall|i: int| 0 < i < front.len() implies !(is_whitespace(front[i - 1])
            && is_whitespace(#[trigger] front[i])) by {
            assert(front[i] == text[i]);
        }
        lemma_squeeze_of_squeezed(front);
        if text.len() >= 2 {
            assert(!(is_whitespace(text[text.len() - 2]) && is_whitespace(
                text[text.len() - 1],
            )));
        }
    }
}

/// The line terminators in the front part of a stream do not depend on
/// what follows it.
proof fn lemma_newlines_in_head(head: Seq<u8>, tail: Seq<u8>, n: int)
    requires
        0 <= n <= head.len(),
    ensures
        newlines(head + tail, n) == newlines(head, n),
    decreases n,
{
    if n > 0 {
        lemma_newlines_in_head(head, tail, n - 1);
    }
}

/// The line terminators of two streams put together are those of each.
proof fn lemma_newlines_in_tail(head: Seq<u8>, tail: Seq<u8>, m: int)
    requires
        0 <= m <= tail.len(),
    ensures
        newlines(head + tail, head.len() + m) == newlines(head, head.len() as int) + newlines(
            tail,
            m,
        ),
    decreases m,
{
    if m == 0 {
        lemma_newlines_in_head(head, tail, head.len() as int);
    } else {
        lemma_newlines_in_tail(head, tail, m - 1);
    }
}

/// A stream cut at the end of a line has the lines of both pieces.
pub proof fn lemma_line_count_concat(head: Seq<u8>, tail: Seq<u8>)
    requires
        head.len() > 0 ==> head.last() == NEWLINE,
    ensures
        line_count(head + tail) == line_count(head) + line_count(tail),
{
    lemma_newlines_in_tail(head, tail, tail.len() as int);
}

/// Tells whether a code point is whitespace.
pub fn is_space(code: u32) -> (space: bool)
    ensures
        space == is_space_code(code),
{
    (0x09 <= code && code <= 0x0d) || code == 0x20 || code == 0x85 || code == 0xa0 || code
        == 0x1680 || (0x2000 <= code && code <= 0x200a) || code == 0x2028 || code == 0x2029
        || code == 0x202f || code == 0x205f || code == 0x3000
}

} // verus!
