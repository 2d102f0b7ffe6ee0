use primitives::text::{chars_of, eq_ignore_ascii_case, str_eq, to_ascii_upper, trim_end_matches};

#[test]
fn str_eq_is_equality() {
    assert!(str_eq("", ""));
    assert!(str_eq("abc", "abc"));
    assert!(str_eq("üñí", "üñí"));
    assert!(!str_eq("abc", "abd"));
    assert!(!str_eq("abc", "ab"));
    assert!(!str_eq("", "a"));
    assert!(!str_eq("a", "A"));
}

#[test]
fn ascii_case_is_ignored_and_nothing_else() {
    assert!(eq_ignore_ascii_case("X-Signature", "x-signature"));
    assert!(eq_ignore_ascii_case("", ""));
    assert!(eq_ignore_ascii_case("ÄbC", "Äbc"));
    assert!(!eq_ignore_ascii_case("Äbc", "äbc"));
    assert!(!eq_ignore_ascii_case("abc", "abcd"));
    assert!(!eq_ignore_ascii_case("a_c", "a-c"));
    assert!(!eq_ignore_ascii_case("k", "\u{212a}"));
}

#[test]
fn ascii_upper_of_characters() {
    assert_eq!(to_ascii_upper('a'), 'A');
    assert_eq!(to_ascii_upper('z'), 'Z');
    assert_eq!(to_ascii_upper('A'), 'A');
    assert_eq!(to_ascii_upper('0'), '0');
    assert_eq!(to_ascii_upper('{'), '{');
    assert_eq!(to_ascii_upper('`'), '`');
    assert_eq!(to_ascii_upper('ß'), 'ß');
    for c in ['a', 'q', 'Z', '-', 'é', '\u{17f}'] {
        assert_eq!(to_ascii_upper(c), c.to_ascii_uppercase());
    }
}

#[test]
fn chars_and_trimming() {
    assert_eq!(chars_of("aü\u{1F600}"), vec!['a', 'ü', '\u{1F600}']);
    assert_eq!(chars_of(""), vec![]);
    assert_eq!(trim_end_matches("http://x///", '/'), "http://x");
    assert_eq!(trim_end_matches("a/b", '/'), "a/b");
    assert_eq!(trim_end_matches("//", '/'), "");
    assert_eq!(trim_end_matches("", '/'), "");
    assert_eq!(trim_end_matches("ü/ü/", '/'), "ü/ü");
}
