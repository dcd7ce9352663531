//! The string operations.

use convergio_ceo::text::{
    contains, is_white, join, list_contains, parse_int, replace_all, same_text, split_words, trim,
    write_decimal, write_signed,
};

const SAMPLES: [&str; 12] = [
    "",
    " ",
    "a",
    " a ",
    "ab ab",
    "aaa",
    "\u{a0}x\u{2009}y\u{3000}",
    "\u{200b}not white\u{200b}",
    "tab\tand\r\nbreak",
    ":id/:id2/:i",
    "é ü",
    "aXbXc",
];

#[test]
fn white_space_is_that_of_unicode() {
    for n in 0u32..0x110000 {
        if let Some(c) = char::from_u32(n) {
            assert_eq!(is_white(c), c.is_whitespace());
        }
    }
}

#[test]
fn trimming_and_splitting() {
    for s in SAMPLES {
        assert_eq!(trim(s), s.trim());
        assert_eq!(trim(&trim(s)), trim(s));
        let words: Vec<String> = s.split_whitespace().map(|w| w.to_string()).collect();
        assert_eq!(split_words(s), words);
    }
    assert_eq!(split_words(" one\u{2003}two  three "), vec!["one", "two", "three"]);
}

#[test]
fn searching_and_replacing() {
    for s in SAMPLES {
        for needle in ["a", "ab", "aa", ":id", "é", " ", "X"] {
            assert_eq!(contains(s, needle), s.contains(needle));
            assert_eq!(replace_all(s, needle, "<é>"), s.replace(needle, "<é>"));
            assert_eq!(replace_all(s, needle, ""), s.replace(needle, ""));
        }
        assert!(contains(s, ""));
        assert_eq!(replace_all(s, "", "x"), s);
    }
    assert_eq!(replace_all("aaa", "aa", "b"), "ba");
}

#[test]
fn joining_and_comparing() {
    let none: Vec<String> = vec![];
    assert_eq!(join(&none, ", "), "");
    assert_eq!(join(&["a".to_string()], ", "), "a");
    assert_eq!(join(&["a".to_string(), "".to_string(), "c".to_string()], ", "), "a, , c");
    assert!(same_text("é", "é"));
    assert!(!same_text("e", "é"));
    assert!(list_contains(&["a".to_string(), "b".to_string()], "b"));
    assert!(!list_contains(&["a".to_string(), "b".to_string()], ""));
    assert!(!list_contains(&none, "a"));
}

#[test]
fn numbers_are_written_and_read_back() {
    for n in [0, 1, 9, 10, 99, 100, 1402, i64::MAX, -1, -10, i64::MIN] {
        assert_eq!(write_signed(n), n.to_string());
        assert_eq!(parse_int(&write_signed(n)), Some(n));
    }
    for n in [0, 7, 10, 65_536, u64::MAX] {
        assert_eq!(write_decimal(n), n.to_string());
    }
}

#[test]
fn numbers_are_read_as_the_standard_library_reads_them() {
    let texts = [
        "", "+", "-", "0", "-0", "+7", "007", "-007", "1402", " 1", "1 ", "1a", "a", "--1", "+-1",
        "١", "9223372036854775807", "9223372036854775808", "-9223372036854775808",
        "-9223372036854775809", "99999999999999999999999999", "-99999999999999999999999999",
        "00000000000000000000000000000001", "1_000", "1.0", "0x1",
    ];
    for t in texts {
        assert_eq!(parse_int(t), t.parse::<i64>().ok());
    }
}
