use zip_codes_plus::numbers::is_decimal;
use zip_codes_plus::numbers::parse_u64;

#[test]
fn parse_u64_reads_plain_decimals() {
    assert_eq!(parse_u64("0"), Some(0));
    assert_eq!(parse_u64("7"), Some(7));
    assert_eq!(parse_u64("10465"), Some(10465));
    assert_eq!(parse_u64("007"), Some(7));
}

#[test]
fn parse_u64_rejects_non_digits() {
    assert_eq!(parse_u64(""), None);
    assert_eq!(parse_u64("12a"), None);
    assert_eq!(parse_u64("-1"), None);
    assert_eq!(parse_u64("1.5"), None);
    assert_eq!(parse_u64(" 1"), None);
}

#[test]
fn parse_u64_stops_at_the_type_bound() {
    assert_eq!(parse_u64("18446744073709551615"), Some(u64::MAX));
    assert_eq!(parse_u64("18446744073709551616"), None);
    assert_eq!(parse_u64("99999999999999999999"), None);
}

#[test]
fn is_decimal_accepts_coordinate_shapes() {
    assert!(is_decimal("40"));
    assert!(is_decimal("40.85"));
    assert!(is_decimal("-74.1"));
    assert!(is_decimal("+3.5"));
    assert!(is_decimal(".5"));
    assert!(is_decimal("5."));
}

#[test]
fn is_decimal_rejects_other_shapes() {
    assert!(!is_decimal(""));
    assert!(!is_decimal("-"));
    assert!(!is_decimal("."));
    assert!(!is_decimal("-."));
    assert!(!is_decimal("1e5"));
    assert!(!is_decimal("1.2.3"));
    assert!(!is_decimal("12 "));
    assert!(!is_decimal("--1"));
}
