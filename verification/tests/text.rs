use hybrid_router::confidence::{at_least, same_value, FULL_CONFIDENCE_BITS, NO_CONFIDENCE_BITS};
use hybrid_router::text::{
    after_first, decimal_text, ends_with, eq_ignore_ascii_case, find_char, join_from, rfind_char,
    same_text, split_lines, starts_with, string_of, to_upper, trimmed, truncate_with_ellipsis,
};

#[test]
fn trimming_drops_every_white_space_character() {
    for code in 0..=0x10ffffu32 {
        if let Some(c) = char::from_u32(code) {
            if code < 0x4000 || c.is_whitespace() {
                let text = format!("{c}x{c}");
                assert_eq!(trimmed(&text), text.trim(), "{code:x}");
            }
        }
    }
    assert_eq!(trimmed(" \u{85}\u{2003} a b \u{feff} "), "a b \u{feff}");
    assert_eq!(trimmed(" \n "), "");
    assert_eq!(trimmed(""), "");
}

#[test]
fn lines_end_as_usual() {
    for text in [
        "", "\n", "\r\n", "a", "a\n", "a\r\nb", "a\n\nb\n", "\r", "a\r", "a\r\r\nb\r", "a\rb\n\n",
        "\n\n\n", "ä\r\n€\n",
    ] {
        let expected: Vec<String> = text.lines().map(str::to_string).collect();
        assert_eq!(split_lines(text), expected, "{text:?}");
    }
}

#[test]
fn case_is_ignored_for_ascii_only() {
    assert!(eq_ignore_ascii_case("HyBrid", "hybrid"));
    assert!(eq_ignore_ascii_case("", ""));
    assert!(!eq_ignore_ascii_case("Ä", "ä"));
    assert!(!eq_ignore_ascii_case("a", "ab"));
    assert!(!eq_ignore_ascii_case("[", "{"));
    assert!(!eq_ignore_ascii_case("@", "`"));
    assert!(same_text("a", "a"));
    assert!(!same_text("a", "A"));
}

#[test]
fn upper_case_follows_unicode() {
    assert_eq!(to_upper("user"), "USER");
    assert_eq!(to_upper("tool-2[z]"), "TOOL-2[Z]");
    assert_eq!(to_upper("straße"), "STRASSE");
    assert_eq!(to_upper("é"), "É");
    assert_eq!(to_upper(""), "");
}

#[test]
fn prefixes_suffixes_and_matches_are_found() {
    assert!(starts_with("[Used tools: x]", "[Used tools:"));
    assert!(starts_with("abc", ""));
    assert!(!starts_with("a", "ab"));
    assert!(ends_with("USER: ", ": "));
    assert!(!ends_with(" ", ": "));
    assert_eq!(after_first("[a] b] c", "] ").as_deref(), Some("b] c"));
    assert_eq!(after_first("[a]b]", "] "), None);
    assert_eq!(after_first("", "] "), None);
    assert_eq!(after_first("", "").as_deref(), Some(""));
    let chars: Vec<char> = "a{b}c}".chars().collect();
    assert_eq!(find_char(&chars, '{'), 1);
    assert_eq!(find_char(&chars, 'x'), 6);
    assert_eq!(rfind_char(&chars, '}'), Some(5));
    assert_eq!(rfind_char(&chars, 'x'), None);
    assert_eq!(string_of(&chars), "a{b}c}");
}

#[test]
fn parts_are_joined() {
    let parts = vec!["a".to_string(), "".to_string(), "b".to_string()];
    assert_eq!(join_from(&parts, 0, "\n"), "a\n\nb");
    assert_eq!(join_from(&parts, 1, " "), " b");
    assert_eq!(join_from(&parts, 2, " "), "b");
    assert_eq!(join_from(&parts, 3, " "), "");
}

#[test]
fn a_cut_is_marked() {
    assert_eq!(truncate_with_ellipsis("hello", 5), "hello");
    assert_eq!(truncate_with_ellipsis("hello world", 5), "hello...");
    assert_eq!(truncate_with_ellipsis("hello world", 6), "hello...");
    assert_eq!(truncate_with_ellipsis("äöü€", 3), "äöü...");
    assert_eq!(truncate_with_ellipsis("x", 0), "...");
    assert_eq!(truncate_with_ellipsis("", 0), "");
    assert_eq!(truncate_with_ellipsis("hello", usize::MAX), "hello");
}

#[test]
fn numbers_are_written_in_decimal() {
    for n in [0, 7, 10, 99, 100, 2_400, 1_234_567_890, u64::MAX] {
        assert_eq!(decimal_text(n), n.to_string());
    }
}

#[test]
fn confidences_are_ordered_as_floats_are() {
    let values = [
        f64::NEG_INFINITY, -1.0, -0.5, -f64::MIN_POSITIVE, -0.0, 0.0, 5e-324, 0.25, 0.7, 0.71, 1.0,
        2.0, f64::MAX, f64::INFINITY, f64::NAN, -f64::NAN,
    ];
    for a in values {
        for b in values {
            assert_eq!(at_least(a.to_bits(), b.to_bits()), a >= b, "{a} {b}");
            assert_eq!(same_value(a.to_bits(), b.to_bits()), a == b, "{a} {b}");
        }
    }
    assert_eq!(FULL_CONFIDENCE_BITS, 1.0f64.to_bits());
    assert_eq!(NO_CONFIDENCE_BITS, 0.0f64.to_bits());
}
