use primitives::console::{
    choose_rendering, format_line, format_millis, format_payload, format_timestamp,
};
use primitives::text::decimal_string;

#[test]
fn decimal_of_small_and_large_numbers() {
    assert_eq!(decimal_string(0), "0");
    assert_eq!(decimal_string(7), "7");
    assert_eq!(decimal_string(10), "10");
    assert_eq!(decimal_string(1234567890), "1234567890");
    assert_eq!(decimal_string(100), "100");
    assert_eq!(decimal_string(u128::MAX), u128::MAX.to_string());
}

#[test]
fn decimal_agrees_with_std() {
    let mut n: u128 = 1;
    while n < u128::MAX / 7 {
        assert_eq!(decimal_string(n), n.to_string());
        assert_eq!(decimal_string(n - 1), (n - 1).to_string());
        n *= 7;
    }
}

#[test]
fn millis_are_written_in_three_digits() {
    assert_eq!(format_millis(0), "0.000");
    assert_eq!(format_millis(5), "0.005");
    assert_eq!(format_millis(42), "0.042");
    assert_eq!(format_millis(999), "0.999");
    assert_eq!(format_millis(1000), "1.000");
    assert_eq!(format_millis(1001), "1.001");
    assert_eq!(format_millis(1_700_000_000_123), "1700000000.123");
    assert_eq!(format_millis(12_340), "12.340");
}

#[test]
fn millis_agree_with_std_formatting() {
    for millis in [0u128, 9, 10, 99, 100, 1_234, 59_999, 60_000, 987_654_321, u128::MAX] {
        let secs = millis / 1000;
        let ms = millis % 1000;
        assert_eq!(format_millis(millis), format!("{secs}.{ms:03}"));
    }
}

#[test]
fn timestamp_has_seconds_point_and_three_digits() {
    let text = format_timestamp();
    let (secs, millis) = text.split_once('.').unwrap();
    assert!(!secs.is_empty());
    assert!(secs.chars().all(|c| c.is_ascii_digit()));
    assert!(secs == "0" || !secs.starts_with('0'));
    assert_eq!(millis.len(), 3);
    assert!(millis.chars().all(|c| c.is_ascii_digit()));
}

#[test]
fn timestamp_is_after_2020() {
    let text = format_timestamp();
    let secs: u64 = text.split_once('.').unwrap().0.parse().unwrap();
    assert!(secs > 1_577_836_800);
}

#[test]
fn line_with_and_without_timestamp() {
    assert_eq!(format_line(None, "{\"a\":1}"), "{\"a\":1}");
    assert_eq!(format_line(Some("12.345"), "{\"a\":1}"), "[12.345] {\"a\":1}");
    assert_eq!(format_line(Some(""), ""), "[] ");
    assert_eq!(format_line(None, ""), "");
}

#[test]
fn payload_is_indented_when_asked() {
    assert_eq!(format_payload("{\"a\":1}", true), "{\n  \"a\": 1\n}");
    assert_eq!(
        format_payload("{\"b\":[1,true,null],\"a\":\"x\"}", true),
        "{\n  \"a\": \"x\",\n  \"b\": [\n    1,\n    true,\n    null\n  ]\n}"
    );
    assert_eq!(format_payload("null", true), "null");
}

#[test]
fn payload_is_kept_compact_otherwise() {
    assert_eq!(format_payload("{\"a\":1}", false), "{\"a\":1}");
    assert_eq!(format_payload("not json", false), "not json");
}

#[test]
fn payload_that_cannot_be_indented_is_kept() {
    assert_eq!(format_payload("{\"a\":", true), "{\"a\":");
    assert_eq!(format_payload("", true), "");
}

#[test]
fn rendering_prefers_the_indented_form_only_when_asked() {
    assert_eq!(choose_rendering("c", true, Some("p".to_string())), "p");
    assert_eq!(choose_rendering("c", true, None), "c");
    assert_eq!(choose_rendering("c", false, Some("p".to_string())), "c");
    assert_eq!(choose_rendering("c", false, None), "c");
}
