use unison_editor::decimal::{decimal_text, text_parse_usize, value_of_digit};
use unison_editor::text::{
    char_is_whitespace, chars_of, string_of, strings_of, text_after, text_before, text_contains,
    text_find, text_join, text_lines, text_rfind_char, text_starts_with, text_strip_prefix,
    text_trim,
};

fn chars(s: &str) -> Vec<char> {
    s.chars().collect()
}

const SAMPLES: &[&str] = &[
    "",
    " ",
    "a",
    "\n",
    "\r",
    "\r\n",
    "a\n",
    "a\r\n",
    "a\r",
    "\na",
    "a\nb",
    "a\n\nb\n",
    "a\r\n\r\nb",
    "a\r\r\nb",
    "a\n\rb",
    "  padded  ",
    "\t\u{a0}x\u{2003}\u{3000}",
    "\u{85}\u{1680}y z\u{2028}\u{2029}\u{202f}\u{205f}",
    "\u{200b}zero width\u{feff}",
    "tour/main> ",
    "  4 | test> square.tests.ex1 = check (square 2 == 4)",
    "1. name \u{2713} passing",
    "Content-Length: 12\r\n\r\n",
    "\u{1f600}\u{e9}\u{4e3b}",
    "12",
    "+12",
    "-12",
    "+",
    "++1",
    "1 2",
    "0",
    "000",
    "18446744073709551615",
    "18446744073709551616",
    "184467440737095516150",
    "\u{661}\u{662}",
    "1\u{0}",
    "aaa",
    "abcabc",
    "..",
    "a..b..c",
];

const PATTERNS: &[&str] = &["", "a", "aa", "\n", "\r\n", " | ", "> ", ". ", "..", "bc", "\u{2713}", "test>", "Content-Length:", "c"];

#[test]
fn white_space_is_what_std_calls_white_space() {
    for code in 0..=0x10ffffu32 {
        if let Some(c) = char::from_u32(code) {
            assert_eq!(char_is_whitespace(c), c.is_whitespace(), "U+{:04X}", code);
        }
    }
}

#[test]
fn digits_are_the_ten_ascii_digits() {
    for code in 0..=0x10ffffu32 {
        if let Some(c) = char::from_u32(code) {
            assert_eq!(value_of_digit(c), c.to_digit(10).filter(|_| c.is_ascii()).map(|d| d as usize), "U+{:04X}", code);
            assert_eq!(value_of_digit(c).is_some(), c.is_digit(10), "U+{:04X}", code);
        }
    }
}

#[test]
fn characters_and_strings_convert_both_ways() {
    for s in SAMPLES {
        assert_eq!(chars_of(s), chars(s));
        assert_eq!(string_of(&chars(s)), *s);
    }
    assert_eq!(strings_of(&vec![chars("a"), chars(""), chars("\u{e9}")]), vec!["a", "", "\u{e9}"]);
}

#[test]
fn trim_is_what_std_trims() {
    for s in SAMPLES {
        assert_eq!(text_trim(&chars(s)), chars(s.trim()), "{:?}", s);
    }
}

#[test]
fn lines_are_what_std_splits() {
    for s in SAMPLES {
        let expected: Vec<Vec<char>> = s.lines().map(chars).collect();
        assert_eq!(text_lines(&chars(s)), expected, "{:?}", s);
    }
}

#[test]
fn numbers_are_read_as_std_reads_them() {
    for s in SAMPLES {
        assert_eq!(text_parse_usize(&chars(s)), s.parse::<usize>().ok(), "{:?}", s);
    }
}

#[test]
fn numbers_are_written_as_std_writes_them() {
    for n in [0u64, 1, 9, 10, 11, 99, 100, 101, 5858, 65535, 4294967295, 4294967296, u64::MAX - 1, u64::MAX] {
        assert_eq!(string_of(&decimal_text(n)), n.to_string());
        assert_eq!(text_parse_usize(&decimal_text(n)), Some(n as usize));
    }
}

fn char_index(s: &str, byte_index: usize) -> usize {
    s[..byte_index].chars().count()
}

#[test]
fn searching_finds_what_std_finds() {
    for s in SAMPLES {
        for p in PATTERNS {
            let text = chars(s);
            assert_eq!(text_find(&text, p), s.find(p).map(|i| char_index(s, i)), "{:?} {:?}", s, p);
            assert_eq!(text_contains(&text, p), s.contains(p), "{:?} {:?}", s, p);
            assert_eq!(text_starts_with(&text, p), s.starts_with(p), "{:?} {:?}", s, p);
            assert_eq!(text_strip_prefix(&text, p), s.strip_prefix(p).map(chars), "{:?} {:?}", s, p);
            assert_eq!(text_after(&text, p), s.split_once(p).map(|(_, after)| chars(after)), "{:?} {:?}", s, p);
            if !p.is_empty() {
                assert_eq!(text_before(&text, p), chars(s.split(p).next().unwrap()), "{:?} {:?}", s, p);
            }
        }
        for c in ['>', '/', 'a', '\n', '.', '\u{e9}'] {
            assert_eq!(text_rfind_char(&chars(s), c), s.rfind(c).map(|i| char_index(s, i)), "{:?} {:?}", s, c);
        }
    }
}

#[test]
fn joining_is_what_std_joins() {
    let parts = vec![chars("a"), chars(""), chars("b c")];
    assert_eq!(string_of(&text_join(&parts, ", ")), "a, , b c");
    assert_eq!(string_of(&text_join(&parts, "")), "ab c");
    assert_eq!(string_of(&text_join(&vec![chars("only")], "\n")), "only");
    assert_eq!(string_of(&text_join(&Vec::new(), "\n")), "");
    assert_eq!(string_of(&text_join(&vec![chars(""), chars("")], "-")), "-");
}
