use wc::config::{Config, Symbols};
use wc::count::Count;
use wc::engine::count;
use wc::text::is_space;

fn config(symbols: Symbols, words: bool, lines: bool) -> Config {
    Config { symbols, words, lines, stdin: true, filenames: None }
}

fn all_of(symbols: Symbols) -> Config {
    config(symbols, true, true)
}

fn words_in(data: &[u8]) -> u64 {
    count(data, &config(Symbols::Off, true, false)).words
}

fn lines_in(data: &[u8]) -> u64 {
    count(data, &config(Symbols::Off, false, true)).lines
}

fn characters_in(data: &[u8]) -> u64 {
    count(data, &config(Symbols::Characters, false, false)).symbols
}

fn bytes_in(data: &[u8]) -> u64 {
    count(data, &config(Symbols::Bytes, false, false)).symbols
}

#[test]
fn an_empty_stream_counts_nothing() {
    assert_eq!(count(b"", &all_of(Symbols::Bytes)), Count { symbols: 0, words: 0, lines: 0 });
    assert_eq!(count(b"", &all_of(Symbols::Characters)), Count { symbols: 0, words: 0, lines: 0 });
    assert_eq!(lines_in(b""), 0);
}

#[test]
fn two_lines_of_three_words() {
    let found = count(b"hello world\nfoo\n", &all_of(Symbols::Bytes));
    assert_eq!(found, Count { symbols: 16, words: 3, lines: 2 });
}

#[test]
fn one_line_from_standard_input() {
    let found = count(b"a b c\n", &all_of(Symbols::Bytes));
    assert_eq!(found, Count { symbols: 6, words: 3, lines: 1 });
}

#[test]
fn what_is_not_asked_for_stays_zero() {
    let data = b"one two\nthree\n";
    assert_eq!(
        count(data, &config(Symbols::Off, true, false)),
        Count { symbols: 0, words: 3, lines: 0 }
    );
    assert_eq!(
        count(data, &config(Symbols::Off, false, true)),
        Count { symbols: 0, words: 0, lines: 2 }
    );
    assert_eq!(
        count(data, &config(Symbols::Bytes, false, false)),
        Count { symbols: 14, words: 0, lines: 0 }
    );
    assert_eq!(
        count(data, &config(Symbols::Off, false, false)),
        Count { symbols: 0, words: 0, lines: 0 }
    );
}

#[test]
fn bytes_mode_counts_every_byte() {
    let samples: [&[u8]; 6] = [
        b"",
        b"\n",
        b"plain ascii\n",
        "h\u{e9}llo w\u{f6}rld\n".as_bytes(),
        &[0xff, 0xfe, 0x00, 0x80, 0x0a],
        &[0xe2, 0x82],
    ];
    for data in samples {
        assert_eq!(bytes_in(data), data.len() as u64);
    }
}

#[test]
fn characters_equal_bytes_on_ascii() {
    let samples: [&[u8]; 4] = [b"", b"0123456789", b"a b\tc\r\n", &[0x00, 0x7f, 0x0a]];
    for data in samples {
        assert_eq!(characters_in(data), data.len() as u64);
        assert_eq!(characters_in(data), bytes_in(data));
    }
}

#[test]
fn characters_of_well_formed_text() {
    assert_eq!(characters_in("h\u{e9}llo".as_bytes()), 5);
    assert_eq!(bytes_in("h\u{e9}llo".as_bytes()), 6);
    assert_eq!(characters_in("\u{20ac}".as_bytes()), 1);
    assert_eq!(characters_in("\u{1f600}\u{1f600}".as_bytes()), 2);
    assert_eq!(characters_in("\u{7f}\u{80}\u{7ff}\u{800}\u{ffff}\u{10000}\u{10ffff}".as_bytes()), 7);
    assert_eq!(characters_in("\u{d7ff}\u{e000}".as_bytes()), 2);
}

#[test]
fn a_byte_that_begins_no_scalar_is_one_character() {
    // stray continuation bytes and bytes that never occur in UTF-8
    assert_eq!(characters_in(&[0x80]), 1);
    assert_eq!(characters_in(&[0xff, 0xfe]), 2);
    assert_eq!(characters_in(&[0xf8, 0x80, 0x80, 0x80, 0x80]), 5);
    // a leading byte without its continuation bytes
    assert_eq!(characters_in(&[0xc3]), 1);
    assert_eq!(characters_in(&[0xc3, 0x41]), 2);
    assert_eq!(characters_in(&[0xe2, 0x82]), 2);
    assert_eq!(characters_in(&[0xe2, 0x82, 0x41]), 3);
    assert_eq!(characters_in(&[0xf0, 0x9f, 0x98]), 3);
    // overlong encodings
    assert_eq!(characters_in(&[0xc0, 0x80]), 2);
    assert_eq!(characters_in(&[0xc1, 0xbf]), 2);
    assert_eq!(characters_in(&[0xe0, 0x80, 0x80]), 3);
    assert_eq!(characters_in(&[0xf0, 0x80, 0x80, 0x80]), 4);
    // surrogates and values past the last scalar
    assert_eq!(characters_in(&[0xed, 0xa0, 0x80]), 3);
    assert_eq!(characters_in(&[0xed, 0xbf, 0xbf]), 3);
    assert_eq!(characters_in(&[0xf4, 0x90, 0x80, 0x80]), 4);
    // good text around a bad byte
    assert_eq!(characters_in(&[0x61, 0xff, 0xc3, 0xa9, 0x0a]), 4);
}

#[test]
fn a_bad_byte_is_part_of_a_word() {
    assert_eq!(words_in(&[0xff]), 1);
    assert_eq!(words_in(&[0x61, 0xff, 0x62]), 1);
    assert_eq!(words_in(&[0x61, 0x20, 0xff, 0x20, 0x62]), 3);
    // the bytes of U+00A0 with the leading byte missing
    assert_eq!(words_in(&[0x61, 0xa0, 0x62]), 1);
}

#[test]
fn words_are_runs_without_whitespace() {
    assert_eq!(words_in(b""), 0);
    assert_eq!(words_in(b" "), 0);
    assert_eq!(words_in(b" \t\r\n\x0b\x0c"), 0);
    assert_eq!(words_in(b"a"), 1);
    assert_eq!(words_in(b" a "), 1);
    assert_eq!(words_in(b"a b"), 2);
    assert_eq!(words_in(b"a\nb"), 2);
    assert_eq!(words_in(b"one, two; three."), 3);
    assert_eq!(words_in(b"a\x00b"), 1);
    assert_eq!(words_in(b"a\x1fb"), 1);
}

#[test]
fn words_are_split_at_whitespace_beyond_ascii() {
    assert_eq!(words_in("a\u{a0}b".as_bytes()), 2);
    assert_eq!(words_in("a\u{85}b".as_bytes()), 2);
    assert_eq!(words_in("a\u{1680}b\u{2000}c\u{200a}d".as_bytes()), 4);
    assert_eq!(words_in("a\u{2028}b\u{2029}c\u{202f}d\u{205f}e\u{3000}f".as_bytes()), 6);
    // close to whitespace, but none
    assert_eq!(words_in("a\u{200b}b".as_bytes()), 1);
    assert_eq!(words_in("a\u{180e}b".as_bytes()), 1);
    assert_eq!(words_in("a\u{feff}b".as_bytes()), 1);
    assert_eq!(words_in("a\u{1f}b\u{84}c\u{86}d\u{9f}e".as_bytes()), 1);
}

#[test]
fn extra_whitespace_between_words_adds_no_word() {
    let plain = words_in(b"alpha beta gamma\n");
    assert_eq!(plain, 3);
    assert_eq!(words_in(b"alpha  beta gamma\n"), plain);
    assert_eq!(words_in(b"alpha \t beta\n\n\ngamma\n"), plain);
    assert_eq!(words_in(b"   alpha beta gamma   \n"), plain);
    assert_eq!(words_in("alpha \u{3000} beta\u{a0} gamma\n".as_bytes()), plain);
}

#[test]
fn whitespace_inside_a_word_adds_one_word() {
    assert_eq!(words_in(b"alphabet"), 1);
    assert_eq!(words_in(b"alpha bet"), 2);
}

#[test]
fn lines_are_terminated_chunks_and_a_last_partial_one() {
    assert_eq!(lines_in(b""), 0);
    assert_eq!(lines_in(b"\n"), 1);
    assert_eq!(lines_in(b"\n\n"), 2);
    assert_eq!(lines_in(b"a"), 1);
    assert_eq!(lines_in(b"a\n"), 1);
    assert_eq!(lines_in(b"a\nb"), 2);
    assert_eq!(lines_in(b"a\nb\n"), 2);
    assert_eq!(lines_in(b"a\r\nb\r\n"), 2);
    assert_eq!(lines_in(b"a\rb"), 1);
    assert_eq!(lines_in(&[0xff, 0x0a, 0xff]), 2);
}

#[test]
fn counts_agree_with_the_standard_library_on_text() {
    let samples = [
        "",
        "hello world\nfoo\n",
        "  leading and trailing  ",
        "tabs\tand\nnewlines\r\n",
        "gr\u{fc}\u{df}e aus \u{4e2d}\u{6587} \u{1f600}\n",
        "no\u{a0}break\u{2003}em\u{3000}ideographic",
        "\u{feff}bom first\n",
        "\u{85}\u{1680}\u{2028}\u{2029}",
        "a\u{0}b\u{7f}c",
    ];
    for text in samples {
        let found = count(text.as_bytes(), &all_of(Symbols::Characters));
        assert_eq!(found.symbols, text.chars().count() as u64, "characters of {:?}", text);
        assert_eq!(found.words, text.split_whitespace().count() as u64, "words of {:?}", text);
        let bytes = count(text.as_bytes(), &all_of(Symbols::Bytes));
        assert_eq!(bytes.symbols, text.len() as u64);
        assert_eq!(bytes.words, found.words);
        assert_eq!(bytes.lines, found.lines);
    }
}

#[test]
fn every_scalar_decodes_to_itself() {
    let mut code: u32 = 0;
    let mut buffer = [0u8; 4];
    while code <= 0x10ffff {
        if let Some(c) = char::from_u32(code) {
            let encoded = c.encode_utf8(&mut buffer).as_bytes();
            assert_eq!(characters_in(encoded), 1, "U+{:04X}", code);
            let expected = if c.is_whitespace() { 0 } else { 1 };
            assert_eq!(words_in(encoded), expected, "U+{:04X}", code);
        }
        code += 1;
    }
}

#[test]
fn whitespace_is_the_white_space_property() {
    let mut code: u32 = 0;
    while code <= 0x10ffff {
        if let Some(c) = char::from_u32(code) {
            assert_eq!(is_space(code), c.is_whitespace(), "U+{:04X}", code);
        }
        code += 1;
    }
    assert!(is_space(0x20));
    assert!(is_space(0x0a));
    assert!(!is_space(0x61));
    assert!(!is_space(0xfffd));
    assert!(!is_space(0x110000));
}

#[test]
fn a_stream_cut_after_a_line_counts_as_its_pieces() {
    let head: &[u8] = "first l\u{ef}ne\n".as_bytes();
    let tail: &[u8] = &[0x20, 0xff, 0x73, 0x65, 0x63, 0x6f, 0x6e, 0x64, 0x0a, 0x74];
    let mut whole = head.to_vec();
    whole.extend_from_slice(tail);
    for symbols in [Symbols::Bytes, Symbols::Characters, Symbols::Off] {
        let config = all_of(symbols);
        let a = count(head, &config);
        let b = count(tail, &config);
        assert_eq!(count(&whole, &config), a.checked_add(&b).unwrap());
    }
}
