use forum_core::model::WEIGHT_SCALE;
use forum_core::parse::{parse_u64, parse_weight};

fn u(s: &str) -> Option<u64> {
    parse_u64(&s.as_bytes().to_vec())
}

fn w(s: &str) -> Option<i64> {
    parse_weight(&s.as_bytes().to_vec())
}

#[test]
fn parse_u64_accepts_plain_digit_strings() {
    assert_eq!(u("0"), Some(0));
    assert_eq!(u("42"), Some(42));
    assert_eq!(u("007"), Some(7));
    assert_eq!(u("18446744073709551615"), Some(u64::MAX));
}

#[test]
fn parse_u64_rejects_everything_else() {
    assert_eq!(u(""), None);
    assert_eq!(u("-1"), None);
    assert_eq!(u("1.0"), None);
    assert_eq!(u("12a"), None);
    assert_eq!(u(" 1"), None);
    assert_eq!(u("18446744073709551616"), None);
}

#[test]
fn parse_weight_reads_fixed_point_decimals() {
    assert_eq!(w("5.0"), Some(5 * WEIGHT_SCALE));
    assert_eq!(w("3.0"), Some(3 * WEIGHT_SCALE));
    assert_eq!(w("7"), Some(7 * WEIGHT_SCALE));
    assert_eq!(w("0.5"), Some(WEIGHT_SCALE / 2));
    assert_eq!(w("2.25"), Some(2_250_000));
    assert_eq!(w("1.234567"), Some(1_234_567));
    assert_eq!(w("1.2345678"), None);
    assert_eq!(w("1.000001"), Some(1_000_001));
}

#[test]
fn parse_weight_reads_a_leading_minus_sign() {
    assert_eq!(w("-2.5"), Some(-2_500_000));
    assert_eq!(w("-0"), Some(0));
}

#[test]
fn parse_weight_rejects_malformed_literals() {
    assert_eq!(w(""), None);
    assert_eq!(w("-"), None);
    assert_eq!(w("."), None);
    assert_eq!(w("5."), None);
    assert_eq!(w(".5"), None);
    assert_eq!(w("5..0"), None);
    assert_eq!(w("1.2.3"), None);
    assert_eq!(w("a"), None);
    // A magnitude past what the fixed-point form can hold.
    assert_eq!(w("10000000000000"), None);
}
