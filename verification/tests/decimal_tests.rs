use luno::Decimal;
use std::str::FromStr;

#[test]
fn test_new() {
    let (key, secret) = (String::from("TEST_KEY"), String::from("TEST_SECRET"));
    assert_eq!(
        luno::Credentials::new(&key, &secret),
        luno::Credentials { key, secret },
    )
}

#[test]
fn decimal_parses_exact_mantissa_and_scale() {
    let d = Decimal::parse("211000.00000001").unwrap();
    assert_eq!(
        d,
        Decimal {
            negative: false,
            mantissa: 21100000000001,
            scale: 8
        }
    );
}

#[test]
fn decimal_round_trips_price_string() {
    let text = "211000.00000001";
    let d = Decimal::parse(text).unwrap();
    assert_eq!(d.format(), text);
}

#[test]
fn decimal_round_trip_agrees_with_reference_crate() {
    let text = "211000.00000001";
    let mine = Decimal::parse(text).unwrap().format();
    let reference = rust_decimal::Decimal::from_str(text).unwrap().to_string();
    assert_eq!(mine, reference);
}

#[test]
fn decimal_keeps_trailing_zeros() {
    let d = Decimal::parse("1.10").unwrap();
    assert_eq!(d.scale, 2);
    assert_eq!(d.mantissa, 110);
    assert_eq!(d.format(), "1.10");
    let e = Decimal::parse("1.1").unwrap();
    assert_eq!(e.format(), "1.1");
    assert_ne!(d, e);
}

#[test]
fn decimal_negative_values() {
    let d = Decimal::parse("-0.0005").unwrap();
    assert_eq!(
        d,
        Decimal {
            negative: true,
            mantissa: 5,
            scale: 4
        }
    );
    assert_eq!(d.format(), "-0.0005");
}

#[test]
fn decimal_zero_forms() {
    assert_eq!(Decimal::parse("0").unwrap().format(), "0");
    assert_eq!(Decimal::parse("0.00").unwrap().format(), "0.00");
}

#[test]
fn decimal_format_of_constructed_values() {
    assert_eq!(Decimal::from_u64(211000).format(), "211000");
    assert_eq!(Decimal::from_scaled(5, 4).format(), "0.0005");
    assert_eq!(Decimal::from_scaled(110, 2).format(), "1.10");
}

#[test]
fn decimal_rejects_malformed_strings() {
    assert!(Decimal::parse("").is_none());
    assert!(Decimal::parse("-").is_none());
    assert!(Decimal::parse(".5").is_none());
    assert!(Decimal::parse("1.").is_none());
    assert!(Decimal::parse("01").is_none());
    assert!(Decimal::parse("1..2").is_none());
    assert!(Decimal::parse("--1").is_none());
    assert!(Decimal::parse("1,5").is_none());
    assert!(Decimal::parse("1e5").is_none());
    assert!(Decimal::parse(" 1").is_none());
}

#[test]
fn decimal_digit_budget() {
    // 38 digits in all are accepted, 39 are refused.
    assert!(Decimal::parse("99999999999999999999999999999999999999").is_some());
    assert!(Decimal::parse("999999999999999999999999999999999999999").is_none());
    assert!(Decimal::parse("0.0000000000000000000000000000000000001").is_some());
}

#[test]
fn largest_u64_stays_exact() {
    let d = Decimal::from_u64(u64::MAX);
    assert_eq!(d.format(), "18446744073709551615");
}
