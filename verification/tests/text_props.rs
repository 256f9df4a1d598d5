use review_queue::text::parse_counter;
use review_queue::text::parse_decimal;
use review_queue::text::trim;
use review_queue::text::truncate_str;
use review_queue::text::u64_to_decimal;

#[test]
fn decimal_renders_zero() {
    assert_eq!(u64_to_decimal(0), "0");
}

#[test]
fn decimal_renders_small_and_large() {
    assert_eq!(u64_to_decimal(5), "5");
    assert_eq!(u64_to_decimal(42), "42");
    assert_eq!(u64_to_decimal(1234567890), "1234567890");
    assert_eq!(u64_to_decimal(u64::MAX), "18446744073709551615");
}

#[test]
fn parse_reads_plain_digits() {
    assert_eq!(parse_decimal("0"), Some(0));
    assert_eq!(parse_decimal("5"), Some(5));
    assert_eq!(parse_decimal("007"), Some(7));
    assert_eq!(parse_decimal("18446744073709551615"), Some(u64::MAX));
}

#[test]
fn parse_rejects_empty_and_non_digits() {
    assert_eq!(parse_decimal(""), None);
    assert_eq!(parse_decimal("abc"), None);
    assert_eq!(parse_decimal("12x"), None);
    assert_eq!(parse_decimal("-3"), None);
    assert_eq!(parse_decimal("+3"), None);
}

#[test]
fn parse_rejects_overflow() {
    assert_eq!(parse_decimal("18446744073709551616"), None);
    assert_eq!(parse_decimal("99999999999999999999999"), None);
}

#[test]
fn trim_removes_surrounding_whitespace() {
    assert_eq!(trim(" 42\n"), "42");
    assert_eq!(trim("\t\r\n  "), "");
    assert_eq!(trim("a b"), "a b");
    assert_eq!(trim(""), "");
}

#[test]
fn counter_parse_tolerates_whitespace() {
    assert_eq!(parse_counter("5"), Some(5));
    assert_eq!(parse_counter(" 42\n"), Some(42));
    assert_eq!(parse_counter("\n"), None);
    assert_eq!(parse_counter("4 2"), None);
}

#[test]
fn truncate_keeps_short_titles() {
    assert_eq!(truncate_str("hello", 30), "hello");
    let exactly_thirty = "abcdefghijklmnopqrstuvwxyz1234";
    assert_eq!(exactly_thirty.chars().count(), 30);
    assert_eq!(truncate_str(exactly_thirty, 30), exactly_thirty);
}

#[test]
fn truncate_cuts_long_titles_with_ellipsis() {
    let thirty_one = "abcdefghijklmnopqrstuvwxyz12345";
    assert_eq!(thirty_one.chars().count(), 31);
    let cut = truncate_str(thirty_one, 30);
    assert_eq!(cut, "abcdefghijklmnopqrstuvwxyz123\u{2026}");
    assert_eq!(cut.chars().count(), 30);
}

#[test]
fn truncate_counts_characters_not_bytes() {
    let title = "\u{e9}\u{e9}\u{e9}\u{e9}";
    assert_eq!(truncate_str(title, 4), title);
    assert_eq!(truncate_str(title, 3), "\u{e9}\u{e9}\u{2026}");
}
