use y4music::text::{
    between, blank, chars_of, contains_text, find, int_string, join, lines, nat_string,
    padded_string, parse_u64, parse_usize, repeat, split_whitespace, starts_with, strip_prefix,
    trim,
};

#[test]
fn numbers_are_written_in_decimal() {
    assert_eq!(nat_string(0), "0");
    assert_eq!(nat_string(u64::MAX), "18446744073709551615");
    assert_eq!(int_string(i64::MIN), "-9223372036854775808");
    assert_eq!(int_string(-1), "-1");
    assert_eq!(padded_string(7), "07");
    assert_eq!(padded_string(123), "123");
}

#[test]
fn numbers_are_read_like_the_standard_library_reads_them() {
    for s in [
        "0", "007", "+5", "", "+", "-1", " 1", "1 ", "18446744073709551615", "18446744073709551616",
        "99999999999999999999", "1_000", "٣",
    ] {
        assert_eq!(parse_u64(s), s.parse::<u64>().ok(), "{s:?}");
        assert_eq!(parse_usize(s), s.parse::<usize>().ok(), "{s:?}");
    }
}

#[test]
fn what_is_written_is_read_back() {
    for n in [0, 9, 10, 99, 100, 12_345, u64::MAX] {
        assert_eq!(parse_u64(&nat_string(n)), Some(n));
    }
}

#[test]
fn lines_and_words_are_split_like_the_standard_library_splits_them() {
    for s in [
        "", "\n", "a", "a\n", "a\nb", "a\r\nb\r\n", "\r", "a\r", "\n\na\n\n", " x  y\tz ",
        "\u{3000}wide\u{a0}space\u{85}", "ab\u{2028}cd", "\u{200b}",
    ] {
        assert_eq!(lines(s), s.lines().collect::<Vec<_>>(), "{s:?}");
        assert_eq!(split_whitespace(s), s.split_whitespace().collect::<Vec<_>>(), "{s:?}");
        assert_eq!(trim(s), s.trim(), "{s:?}");
        assert_eq!(blank(s), s.trim().is_empty(), "{s:?}");
    }
}

#[test]
fn white_space_is_the_standard_library_s() {
    for c in '\u{0}'..='\u{ffff}' {
        let s = c.to_string();
        assert_eq!(blank(&s), c.is_whitespace(), "{c:?}");
    }
}

#[test]
fn texts_are_searched_and_joined() {
    assert_eq!(find(&chars_of("abcabc"), &chars_of("ca"), 0), Some(2));
    assert_eq!(find(&chars_of("abcabc"), &chars_of("bc"), 2), Some(4));
    assert_eq!(find(&chars_of("abc"), &chars_of("x"), 0), None);
    assert!(contains_text(&chars_of("añb"), &chars_of("ñ")));
    assert!(!contains_text(&chars_of("ab"), &chars_of("abc")));
    assert!(starts_with("listpage:next:3", "listpage:"));
    assert!(!starts_with("list", "listpage:"));
    assert_eq!(strip_prefix("sqlite://x", "sqlite://"), Some("x".to_string()));
    assert_eq!(strip_prefix("x", "sqlite://"), None);
    assert_eq!(join(&vec!["a".to_string(), "b".to_string()], ", "), "a, b");
    assert_eq!(join(&vec![], ", "), "");
    assert_eq!(repeat("ab", 3), "ababab");
    assert_eq!(between("<", "x", ">"), "<x>");
}
