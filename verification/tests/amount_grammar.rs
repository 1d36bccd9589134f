use num_bigint::BigInt;
use num_bigint::BigUint;

use zzledger::ZzParseOptions;
use zzledger::parsers::amount_parser::AmountParseError;
use zzledger::parsers::amount_parser::parse_zzamount_i;
use zzledger::parsers::amount_parser::parse_zzamount_u;
use zzledger::zz_amount::ZzIAmount;
use zzledger::zz_amount::ZzUAmount;

#[test]
fn test_parse_integer() {
    let opts = ZzParseOptions::default();
    let amt = parse_zzamount_i(&opts, b"123").unwrap();
    assert_eq!(amt.display_string(), "123");
}

#[test]
fn test_parse_integer_negative() {
    let opts = ZzParseOptions::default();
    let amt = parse_zzamount_i(&opts, b"-456").unwrap();
    assert_eq!(amt.display_string(), "-456");
}

#[test]
fn test_parse_decimal() {
    let opts = ZzParseOptions::default();
    let amt = parse_zzamount_i(&opts, b"123.7890").unwrap();
    assert_eq!(amt.display_string(), "123.7890");
}

#[test]
fn test_parse_negative_decimal() {
    let opts = ZzParseOptions::default();
    let amt = parse_zzamount_i(&opts, b"-456.0123").unwrap();
    assert_eq!(amt.display_string(), "-456.0123");
}

#[test]
fn test_uint_fails_on_negative() {
    let opts = ZzParseOptions::default();
    assert!(parse_zzamount_u(&opts, b"-456").is_err());
    assert!(parse_zzamount_u(&opts, b"-456.0123").is_err());
}

#[test]
fn test_uint_accepts_plus_sign() {
    let opts = ZzParseOptions::default();
    let amt = parse_zzamount_u(&opts, b"+456").unwrap();
    assert_eq!(amt.display_string(), "456");
}

#[test]
fn test_parse_decimal_truncation() {
    let opts = ZzParseOptions::default();
    let amt = parse_zzamount_u(&opts, b"1.123456").unwrap();
    // Only first 4 digits of decimal are kept
    assert_eq!(amt.display_string(), "1.1234");
}

#[test]
fn test_parse_invalid_decimal_truncates() {
    let opts = ZzParseOptions::default();
    // Parser takes only first 4 decimal digits, ignores rest
    let amt = parse_zzamount_u(&opts, b"12345.99999").unwrap();
    assert_eq!(amt.decimal(), 9999);
}

#[test]
fn test_integer_size_limit_respected() {
    let opts = ZzParseOptions { zz_amount_max_size: 5, ..Default::default() };

    // Exactly 5 digits works
    let amt = parse_zzamount_u(&opts, b"12345").unwrap();
    assert_eq!(amt.display_string(), "12345");

    // More than 5 digits fails
    let result = parse_zzamount_u(&opts, b"123456");
    assert!(result.is_err(), "Expected error for exceeding max digits");
    assert_eq!(result.unwrap_err(), AmountParseError::TooManyDigits);
}

#[test]
fn test_large_limit_allows_big_integers() {
    let opts = ZzParseOptions { zz_amount_max_size: 50, ..Default::default() };

    let big_num = "9".repeat(50);
    let amt = parse_zzamount_u(&opts, big_num.as_bytes()).unwrap();
    assert_eq!(amt.display_string(), big_num);
}

#[test]
fn test_zzamount_decimal() {
    // Short fractional strings are taken as the units they write: "1"
    // after the dot denotes 1 unit, not 1000 units.
    let unit = ZzUAmount::new(BigUint::from(0u32), 1).unwrap();
    let cases = [("0.0001", 1u32), ("0.001", 1), ("0.01", 1), ("0.1", 1)];

    let opts = ZzParseOptions::default();

    assert_eq!(unit.display_string(), "0.0001");
    for (input, decimal) in cases {
        let amount_de = parse_zzamount_u(&opts, input.as_bytes()).unwrap();
        assert_eq!(amount_de.decimal(), decimal);
        assert_eq!(amount_de, unit);
    }
}

#[test]
fn test_parse_rejects_empty_and_garbage() {
    let opts = ZzParseOptions::default();
    assert_eq!(parse_zzamount_u(&opts, b"").unwrap_err(), AmountParseError::Invalid);
    assert_eq!(parse_zzamount_u(&opts, b"abc").unwrap_err(), AmountParseError::Invalid);
    assert_eq!(parse_zzamount_u(&opts, b".5").unwrap_err(), AmountParseError::Invalid);
    assert_eq!(parse_zzamount_i(&opts, b"-").unwrap_err(), AmountParseError::Invalid);
}

#[test]
fn test_parse_ignores_trailing_input() {
    let opts = ZzParseOptions::default();
    let amt = parse_zzamount_u(&opts, b"30xxx").unwrap();
    assert_eq!(amt.display_string(), "30");
    // A bare trailing dot is not a fraction.
    let amt = parse_zzamount_u(&opts, b"7.").unwrap();
    assert_eq!(amt.display_string(), "7");
}

#[test]
fn test_display_parse_round_trip_concrete() {
    let opts = ZzParseOptions::default();
    let values = [
        ZzIAmount::new(BigInt::from(0), 0).unwrap(),
        ZzIAmount::new(BigInt::from(0), 10).unwrap(),
        ZzIAmount::new(BigInt::from(42), 9999).unwrap(),
        ZzIAmount::new(BigInt::from(-7), 1).unwrap(),
        ZzIAmount::new(BigInt::from(-100000), 4321).unwrap(),
    ];
    for v in values {
        let text = v.display_string();
        let back = parse_zzamount_i(&opts, text.as_bytes()).unwrap();
        assert_eq!(back, v);
    }
}
