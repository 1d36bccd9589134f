//! Trusted surface over the `num_bigint` crate.
//!
//! The two arbitrary-precision integer types are declared opaque; the value
//! each one holds is named by an uninterpreted spec function, and every
//! operation the library needs is a small wrapper whose contract states, over
//! those names, what the crate's source shows.

use vstd::prelude::*;

verus! {

#[verifier::external_type_specification]
#[verifier::external_body]
pub struct ExBigUint(num_bigint::BigUint);

#[verifier::external_type_specification]
#[verifier::external_body]
pub struct ExBigInt(num_bigint::BigInt);

/// The natural number a `BigUint` holds.
pub uninterp spec fn big_nat(b: num_bigint::BigUint) -> nat;

/// The integer a `BigInt` holds.
pub uninterp spec fn big_int(b: num_bigint::BigInt) -> int;

/// The value of a big-endian sequence of ASCII decimal digit bytes.
pub open spec fn digits_val(s: Seq<u8>) -> nat
    decreases s.len(),
{
    if s.len() == 0 {
        0
    } else {
        digits_val(s.drop_last()) * 10 + (s.last() - 48) as nat
    }
}

/// Every byte of `s` is an ASCII decimal digit.
pub open spec fn all_digits(s: Seq<u8>) -> bool {
    forall|i: int| 0 <= i < s.len() ==> 48 <= #[trigger] s[i] <= 57
}

/// The character for one decimal digit value.
pub open spec fn digit_char(d: nat) -> char {
    if d == 0 { '0' }
    else if d == 1 { '1' }
    else if d == 2 { '2' }
    else if d == 3 { '3' }
    else if d == 4 { '4' }
    else if d == 5 { '5' }
    else if d == 6 { '6' }
    else if d == 7 { '7' }
    else if d == 8 { '8' }
    else { '9' }
}

/// The decimal rendering of `n`: most significant digit first, no leading
/// zeros, a single `'0'` for zero.
pub open spec fn dec_digits(n: nat) -> Seq<char>
    decreases n,
{
    if n < 10 {
        seq![digit_char(n)]
    } else {
        dec_digits(n / 10).push(digit_char(n % 10))
    }
}

/// Relies on `Clone for BigUint`: the copy holds the same value.
#[verifier::external_body]
pub fn biguint_clone(a: &num_bigint::BigUint) -> (r: num_bigint::BigUint)
    ensures
        big_nat(r) == big_nat(*a),
{
    a.clone()
}

/// Relies on `From<u32> for BigUint`: conversion is value-preserving.
#[verifier::external_body]
pub fn biguint_from_u32(v: u32) -> (r: num_bigint::BigUint)
    ensures
        big_nat(r) == v,
{
    num_bigint::BigUint::from(v)
}

/// Relies on `BigUint::parse_bytes` with radix 10: on a non-empty run of
/// ASCII digits it returns the number those digits denote.
#[verifier::external_body]
pub fn biguint_parse_digits(buf: &[u8]) -> (r: num_bigint::BigUint)
    requires
        buf@.len() > 0,
        all_digits(buf@),
    ensures
        big_nat(r) == digits_val(buf@),
{
    num_bigint::BigUint::parse_bytes(buf, 10).unwrap()
}

/// Relies on `Add for &BigUint`: exact addition.
#[verifier::external_body]
pub fn biguint_add(a: &num_bigint::BigUint, b: &num_bigint::BigUint) -> (r: num_bigint::BigUint)
    ensures
        big_nat(r) == big_nat(*a) + big_nat(*b),
{
    a + b
}

/// Relies on `Add<u32> for &BigUint`: exact addition of a small scalar.
#[verifier::external_body]
pub fn biguint_add_u32(a: &num_bigint::BigUint, v: u32) -> (r: num_bigint::BigUint)
    ensures
        big_nat(r) == big_nat(*a) + v,
{
    a + v
}

/// Relies on `Mul<u32> for &BigUint`: exact multiplication by a small scalar.
#[verifier::external_body]
pub fn biguint_mul_u32(a: &num_bigint::BigUint, m: u32) -> (r: num_bigint::BigUint)
    ensures
        big_nat(r) == big_nat(*a) * m,
{
    a * m
}

/// Relies on `Div<u32> for &BigUint`: Euclidean quotient (panics only on a
/// zero divisor, which the precondition rules out).
#[verifier::external_body]
pub fn biguint_div_u32(a: &num_bigint::BigUint, d: u32) -> (r: num_bigint::BigUint)
    requires
        d > 0,
    ensures
        big_nat(r) == big_nat(*a) / (d as nat),
{
    a / d
}

/// Relies on `Rem<u32> for &BigUint` and `TryFrom<&BigUint> for u32`: the
/// remainder is below the divisor, so it fits in a `u32`.
#[verifier::external_body]
pub fn biguint_rem_u32(a: &num_bigint::BigUint, d: u32) -> (r: u32)
    requires
        d > 0,
    ensures
        r == big_nat(*a) % (d as nat),
{
    u32::try_from(&(a % d)).unwrap()
}

/// Relies on `PartialOrd for BigUint`: order agrees with the held values.
#[verifier::external_body]
pub fn biguint_ge(a: &num_bigint::BigUint, b: &num_bigint::BigUint) -> (r: bool)
    ensures
        r == (big_nat(*a) >= big_nat(*b)),
{
    a >= b
}

/// Relies on `PartialEq for BigUint`: equality agrees with the held values.
#[verifier::external_body]
pub fn biguint_eq(a: &num_bigint::BigUint, b: &num_bigint::BigUint) -> (r: bool)
    ensures
        r == (big_nat(*a) == big_nat(*b)),
{
    a == b
}

/// Relies on `Display for BigUint`: decimal digits, no sign, no leading
/// zeros, `"0"` for zero.
#[verifier::external_body]
pub fn biguint_to_string(a: &num_bigint::BigUint) -> (r: String)
    ensures
        r@ == dec_digits(big_nat(*a)),
{
    a.to_string()
}

/// Relies on `Clone for BigInt`: the copy holds the same value.
#[verifier::external_body]
pub fn bigint_clone(a: &num_bigint::BigInt) -> (r: num_bigint::BigInt)
    ensures
        big_int(r) == big_int(*a),
{
    a.clone()
}

/// Relies on `From<BigUint> for BigInt`: lossless widening.
#[verifier::external_body]
pub fn bigint_from_biguint(a: &num_bigint::BigUint) -> (r: num_bigint::BigInt)
    ensures
        big_int(r) == big_nat(*a),
{
    num_bigint::BigInt::from(a.clone())
}

/// Relies on `Add for &BigInt`: exact addition.
#[verifier::external_body]
pub fn bigint_add(a: &num_bigint::BigInt, b: &num_bigint::BigInt) -> (r: num_bigint::BigInt)
    ensures
        big_int(r) == big_int(*a) + big_int(*b),
{
    a + b
}

/// Relies on `Sub for &BigInt`: exact subtraction.
#[verifier::external_body]
pub fn bigint_sub(a: &num_bigint::BigInt, b: &num_bigint::BigInt) -> (r: num_bigint::BigInt)
    ensures
        big_int(r) == big_int(*a) - big_int(*b),
{
    a - b
}

/// Relies on `Neg for &BigInt`: exact negation.
#[verifier::external_body]
pub fn bigint_neg(a: &num_bigint::BigInt) -> (r: num_bigint::BigInt)
    ensures
        big_int(r) == -big_int(*a),
{
    -a
}

/// Relies on `BigInt::sign`: `Sign::Minus` exactly when the value is below
/// zero.
#[verifier::external_body]
pub fn bigint_is_negative(a: &num_bigint::BigInt) -> (r: bool)
    ensures
        r == (big_int(*a) < 0),
{
    a.sign() == num_bigint::Sign::Minus
}

/// Relies on `BigInt::magnitude` and `Clone for BigUint`: the magnitude is
/// the absolute value.
#[verifier::external_body]
pub fn bigint_magnitude(a: &num_bigint::BigInt) -> (r: num_bigint::BigUint)
    ensures
        big_nat(r) == if big_int(*a) >= 0 { big_int(*a) } else { -big_int(*a) },
{
    a.magnitude().clone()
}

/// Relies on `PartialEq for BigInt`: equality agrees with the held values.
#[verifier::external_body]
pub fn bigint_eq(a: &num_bigint::BigInt, b: &num_bigint::BigInt) -> (r: bool)
    ensures
        r == (big_int(*a) == big_int(*b)),
{
    a == b
}

} // verus!
