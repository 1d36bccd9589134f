use num_bigint::BigInt;
use num_bigint::BigUint;

use zzledger::zz_amount::ZzIAmount;
use zzledger::zz_amount::ZzUAmount;

fn iamount(integer: i64, decimal: u32) -> ZzIAmount {
    ZzIAmount::new(BigInt::from(integer), decimal).unwrap()
}

#[test]
fn test_display_positive_integer() {
    let amt = ZzIAmount::new(BigInt::from(123), 0).unwrap();
    assert_eq!(amt.display_string(), "123");
}

#[test]
fn test_display_positive_decimal() {
    let amt = ZzIAmount::new(BigInt::from(123), 4567).unwrap();
    assert_eq!(amt.display_string(), "123.4567");
}

#[test]
fn test_display_negative_integer() {
    let amt = ZzIAmount::new(BigInt::from(-789), 0).unwrap();
    assert_eq!(amt.display_string(), "-789");
}

#[test]
fn test_display_negative_decimal() {
    let amt = ZzIAmount::new(BigInt::from(-789), 1234).unwrap();
    assert_eq!(amt.display_string(), "-789.1234");
}

#[test]
fn test_invalid_decimal() {
    assert!(ZzIAmount::new(BigInt::from(1), 10000).is_none());
}

#[test]
fn test_unsigned_invalid_decimal() {
    assert!(ZzUAmount::new(BigUint::from(1u32), 10000).is_none());
    assert!(ZzUAmount::new(BigUint::from(1u32), 9999).is_some());
}

#[test]
fn test_add_without_carry() {
    let mut a = iamount(10, 2000);
    let b = iamount(5, 3000);

    a.add(&b);

    // 2000 + 3000 = 5000 < 10000, no carry
    assert_eq!(a, iamount(15, 5000));
    assert_eq!(a.decimal(), 5000);
}

#[test]
fn test_add_with_carry() {
    let mut a = iamount(10, 7000);
    let b = iamount(5, 4000);

    a.add(&b);

    // 7000 + 4000 = 11000 -> carry 1 to integer, decimal = 1000
    assert_eq!(a, iamount(16, 1000));
    assert_eq!(a.decimal(), 1000);
}

#[test]
fn test_add_with_exact_carry_boundary() {
    let mut a = iamount(10, 6000);
    let b = iamount(5, 4000);

    a.add(&b);

    // 6000 + 4000 = 10000 -> carry 1, decimal = 0
    assert_eq!(a, iamount(16, 0));
    assert_eq!(a.decimal(), 0);
}

#[test]
fn test_sub_without_borrow() {
    let mut a = iamount(10, 5000);
    let b = iamount(5, 3000);

    a.sub(&b);

    // 5000 - 3000 = 2000, integer = 10 - 5 = 5
    assert_eq!(a, iamount(5, 2000));
    assert_eq!(a.decimal(), 2000);
}

#[test]
fn test_sub_with_borrow() {
    let mut a = iamount(10, 2000);
    let b = iamount(5, 3000);

    a.sub(&b);

    // 2000 < 3000, borrow: decimal = 2000 + 10000 - 3000 = 9000
    // integer = 10 - (5 + 1) = 4
    assert_eq!(a, iamount(4, 9000));
    assert_eq!(a.decimal(), 9000);
}

#[test]
fn test_sub_with_exact_borrow_boundary() {
    let mut a = iamount(10, 0);
    let b = iamount(5, 1);

    a.sub(&b);

    // borrow: decimal = 0 + 10000 - 1 = 9999
    // integer = 10 - (5 + 1) = 4
    assert_eq!(a, iamount(4, 9999));
    assert_eq!(a.decimal(), 9999);
}

#[test]
fn test_add_and_sub_inverse_relationship() {
    let a = iamount(10, 5000);
    let b = iamount(3, 2500);

    let mut c = a.clone();
    c.add(&b);
    c.sub(&b);

    assert_eq!(c, a);
    assert_eq!(c.decimal(), a.decimal());
}

#[test]
fn test_unary_negates_exactly() {
    let a = iamount(7, 2500);
    let n = a.clone().unary();
    assert_eq!(n.display_string(), "-7.2500");
    assert_eq!(n.unary(), a);
}

#[test]
fn test_zero_is_identity_for_add() {
    let mut a = iamount(-3, 5000);
    let z = ZzIAmount::zero();
    a.add(&z);
    assert_eq!(a, iamount(-3, 5000));
}

#[test]
fn test_widening_preserves_value() {
    let u = ZzUAmount::new(BigUint::from(12u32), 3400).unwrap();
    let i = u.to_i_amount();
    assert_eq!(i, iamount(12, 3400));
}

#[test]
fn test_greater_eq_than_compares_scaled_values() {
    let five_0003 = iamount(5, 3);
    let five_0004 = ZzUAmount::new(BigUint::from(5u32), 4).unwrap();
    // 5.0003 < 5.0004: the fractional units decide.
    assert!(!five_0003.greater_eq_than(five_0004));

    let five_0004_i = iamount(5, 4);
    let five_0004_u = ZzUAmount::new(BigUint::from(5u32), 4).unwrap();
    assert!(five_0004_i.greater_eq_than(five_0004_u));

    let negative = iamount(-1, 0);
    let zero_u = ZzUAmount::new(BigUint::from(0u32), 0).unwrap();
    assert!(!negative.greater_eq_than(zero_u));
}

#[test]
fn test_negative_fractional_balance_displays_sign_magnitude() {
    // 0.2 - 0.3 = -0.1: the rendering is sign and magnitude, exactly.
    let mut a = iamount(0, 2000);
    let b = iamount(0, 3000);
    a.sub(&b);
    assert_eq!(a.display_string(), "-0.1000");
}
