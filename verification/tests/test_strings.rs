use animus::numbers::{is_decimal_text, parse_uint};
use animus::strings::{
    contains, cut_text, decimal_text, ends_with, find, is_white, join, rfind, split, starts_with,
    trim,
};

#[test]
fn white_space_is_what_the_standard_library_has() {
    let mut code: u32 = 0;
    while code <= 0x10ffff {
        if let Some(c) = char::from_u32(code) {
            assert_eq!(is_white(c), c.is_whitespace(), "U+{:04X}", code);
        }
        code += 1;
    }
}

#[test]
fn trim_agrees_with_the_standard_library() {
    for s in ["", "  ", " a ", "\u{3000}x y\u{2028}", "\u{85}q", "z\r\n", "no"] {
        assert_eq!(trim(s), s.trim());
    }
}

#[test]
fn searching_agrees_with_the_standard_library() {
    for (s, pat) in [
        ("hello world", "o"),
        ("hello world", "world"),
        ("aaab", "ab"),
        ("aa", "aaa"),
        ("", "x"),
        ("abc", ""),
    ] {
        assert_eq!(find(s, pat), s.find(pat));
        assert_eq!(rfind(s, pat), s.rfind(pat));
        assert_eq!(contains(s, pat), s.contains(pat));
        assert_eq!(starts_with(s, pat), s.starts_with(pat));
        assert_eq!(ends_with(s, pat), s.ends_with(pat));
    }
    assert_eq!(find("äöü", "ü"), Some(2));
}

#[test]
fn cutting_and_splitting() {
    assert_eq!(
        cut_text("key=a=b", "="),
        Some(("key".to_string(), "a=b".to_string()))
    );
    assert_eq!(cut_text("key", "="), None);
    assert_eq!(split("a,b,,c", ','), vec!["a", "b", "", "c"]);
    assert_eq!(split("", ','), vec![""]);
    assert_eq!(join(&split("a,b,,c", ','), "-"), "a-b--c");
    assert_eq!(join(&Vec::new(), "-"), "");
}

#[test]
fn decimals_are_written_without_leading_zeros() {
    for n in [0u64, 7, 10, 90, 123, 1000, u64::MAX] {
        assert_eq!(decimal_text(n), n.to_string());
    }
}

#[test]
fn unsigned_numbers_are_read_as_the_standard_library_does() {
    for s in [
        "0", "7", "+7", "8848", "65535", "65536", "007", "", "+", "-1", "1x", " 1", "++1", "99999999999999999999999",
    ] {
        assert_eq!(parse_uint(s, u16::MAX as u64), s.parse::<u16>().ok().map(|n| n as u64), "{}", s);
        assert_eq!(parse_uint(s, u64::MAX), s.parse::<u64>().ok(), "{}", s);
    }
    assert_eq!(parse_uint("18446744073709551615", u64::MAX), Some(u64::MAX));
    assert_eq!(parse_uint("18446744073709551616", u64::MAX), None);
    assert_eq!(parse_uint("9", 5), None);
}

#[test]
fn decimal_texts_are_what_the_standard_library_reads() {
    for s in [
        "1", "1.5", ".5", "5.", "-2", "+3.25", "1e5", "1E-5", "1.e+3", "inf", "-Infinity", "NaN",
        "", ".", "e5", "1e", "1e+", "1.2.3", "abc", " 1", "1 ", "+", "-.e1", "infin", "0x10", "1_0",
    ] {
        assert_eq!(is_decimal_text(s), s.parse::<f64>().is_ok(), "{}", s);
    }
}
