//! Exact fixed-point decimal amounts with four implied fractional digits.
//!
//! A value is held as a single arbitrary-precision integer scaled by 10,000,
//! so addition and subtraction are exact integer operations with no carry
//! logic. The unsigned flavour holds amounts read from input; the signed
//! flavour holds balances, which may go negative. Negation is only offered on
//! the signed flavour.

use vstd::prelude::*;

use crate::bignum::big_int;
use crate::bignum::big_nat;
use crate::bignum::bigint_add;
use crate::bignum::bigint_clone;
use crate::bignum::bigint_eq;
use crate::bignum::bigint_from_biguint;
use crate::bignum::bigint_is_negative;
use crate::bignum::bigint_magnitude;
use crate::bignum::bigint_neg;
use crate::bignum::bigint_sub;
use crate::bignum::biguint_add_u32;
use crate::bignum::biguint_clone;
use crate::bignum::biguint_div_u32;
use crate::bignum::biguint_eq;
use crate::bignum::biguint_from_u32;
use crate::bignum::biguint_ge;
use crate::bignum::biguint_mul_u32;
use crate::bignum::biguint_rem_u32;
use crate::bignum::biguint_to_string;
use crate::bignum::dec_digits;
use crate::bignum::digit_char;
use vstd::string::StringExecFns;

verus! {

/// Scale factor: four decimal fractional digits.
pub const SCALE: u32 = 10000;

/// The absolute value of an integer, as a natural number.
pub open spec fn abs_of(v: int) -> nat {
    if v >= 0 {
        v as nat
    } else {
        (-v) as nat
    }
}

/// The four fractional digits of `d` (`d < 10000`), zero padded.
pub open spec fn frac_digits(d: nat) -> Seq<char> {
    seq![
        digit_char(d / 1000 % 10),
        digit_char(d / 100 % 10),
        digit_char(d / 10 % 10),
        digit_char(d % 10),
    ]
}

/// The rendering of a non-negative scaled value: the integer part in decimal,
/// then, only when the fractional part is non-zero, a dot and the four
/// zero-padded fractional digits.
pub open spec fn spec_display_u(n: nat) -> Seq<char> {
    if n % (SCALE as nat) == 0 {
        dec_digits(n / (SCALE as nat))
    } else {
        dec_digits(n / (SCALE as nat)) + seq!['.'] + frac_digits(n % (SCALE as nat))
    }
}

/// The rendering of a signed scaled value: a minus sign for negative values,
/// then the rendering of the magnitude.
pub open spec fn spec_display_i(v: int) -> Seq<char> {
    if v < 0 {
        seq!['-'] + spec_display_u(abs_of(v))
    } else {
        spec_display_u(abs_of(v))
    }
}

/// A non-negative fixed-point amount; its view is the value scaled by 10,000.
#[derive(Debug, PartialEq)]
pub struct ZzUAmount {
    scaled: num_bigint::BigUint,
}

impl View for ZzUAmount {
    type V = nat;

    closed spec fn view(&self) -> nat {
        big_nat(self.scaled)
    }
}

/// A signed fixed-point amount; its view is the value scaled by 10,000.
#[derive(Debug, PartialEq)]
pub struct ZzIAmount {
    scaled: num_bigint::BigInt,
}

impl View for ZzIAmount {
    type V = int;

    closed spec fn view(&self) -> int {
        big_int(self.scaled)
    }
}

impl Clone for ZzUAmount {
    fn clone(&self) -> (r: Self)
        ensures
            r@ == self@,
    {
        ZzUAmount { scaled: biguint_clone(&self.scaled) }
    }
}

impl Clone for ZzIAmount {
    fn clone(&self) -> (r: Self)
        ensures
            r@ == self@,
    {
        ZzIAmount { scaled: bigint_clone(&self.scaled) }
    }
}

/// One decimal digit as a one-character string slice.
fn digit_to_str(d: u32) -> (s: &'static str)
    requires
        d < 10,
    ensures
        s@ == seq![digit_char(d as nat)],
{
    proof {
        reveal_strlit("0");
        reveal_strlit("1");
        reveal_strlit("2");
        reveal_strlit("3");
        reveal_strlit("4");
        reveal_strlit("5");
        reveal_strlit("6");
        reveal_strlit("7");
        reveal_strlit("8");
        reveal_strlit("9");
    }
    if d == 0 { "0" }
    else if d == 1 { "1" }
    else if d == 2 { "2" }
    else if d == 3 { "3" }
    else if d == 4 { "4" }
    else if d == 5 { "5" }
    else if d == 6 { "6" }
    else if d == 7 { "7" }
    else if d == 8 { "8" }
    else { "9" }
}

/// Renders a non-negative scaled value per `spec_display_u`.
fn render_unsigned(scaled: &num_bigint::BigUint) -> (r: String)
    ensures
        r@ == spec_display_u(big_nat(*scaled)),
{
    let q = biguint_div_u32(scaled, SCALE);
    let frac = biguint_rem_u32(scaled, SCALE);
    let mut s = biguint_to_string(&q);
    if frac != 0 {
        proof {
            reveal_strlit(".");
        }
        s.append(".");
        s.append(digit_to_str(frac / 1000 % 10));
        s.append(digit_to_str(frac / 100 % 10));
        s.append(digit_to_str(frac / 10 % 10));
        s.append(digit_to_str(frac % 10));
        proof {
            assert(s@ =~= spec_display_u(big_nat(*scaled)));
        }
    }
    s
}

impl ZzUAmount {
    /// Builds an amount from an integer part and fractional units; fractional
    /// units of 10,000 or more are rejected.
    pub fn new(integer: num_bigint::BigUint, decimal: u32) -> (r: Option<Self>)
        ensures
            decimal < SCALE ==> (r matches Some(a) && a@ == big_nat(integer) * SCALE + decimal),
            decimal >= SCALE ==> r is None,
    {
        if decimal < SCALE {
            let m = biguint_mul_u32(&integer, SCALE);
            Some(ZzUAmount { scaled: biguint_add_u32(&m, decimal) })
        } else {
            None
        }
    }

    /// The fractional units of the amount, in `0..10000`.
    pub fn decimal(&self) -> (r: u32)
        ensures
            r == self@ % (SCALE as nat),
            r < SCALE,
    {
        biguint_rem_u32(&self.scaled, SCALE)
    }

    /// The fractional units are in range; always true of a built amount.
    pub fn validate(&self) -> (r: bool)
        ensures
            r,
    {
        self.decimal() < SCALE
    }

    /// Lossless widening into the signed flavour.
    pub fn to_i_amount(self) -> (r: ZzIAmount)
        ensures
            r@ == self@,
    {
        ZzIAmount { scaled: bigint_from_biguint(&self.scaled) }
    }

    /// Value equality.
    pub fn eq_amount(&self, other: &Self) -> (r: bool)
        ensures
            r == (self@ == other@),
    {
        biguint_eq(&self.scaled, &other.scaled)
    }

    /// The textual form of the amount.
    pub fn display_string(&self) -> (r: String)
        ensures
            r@ == spec_display_u(self@),
    {
        render_unsigned(&self.scaled)
    }
}

impl ZzIAmount {
    /// Builds a signed amount from an integer part and fractional units; the
    /// fractional units push the value away from zero, following the sign of
    /// the integer part. Fractional units of 10,000 or more are rejected.
    pub fn new(integer: num_bigint::BigInt, decimal: u32) -> (r: Option<Self>)
        ensures
            decimal < SCALE ==> (r matches Some(a) && a@ == if big_int(integer) >= 0 {
                big_int(integer) * SCALE + decimal
            } else {
                big_int(integer) * SCALE - decimal
            }),
            decimal >= SCALE ==> r is None,
    {
        if decimal < SCALE {
            let neg = bigint_is_negative(&integer);
            let mag = bigint_magnitude(&integer);
            let m = biguint_mul_u32(&mag, SCALE);
            let s = biguint_add_u32(&m, decimal);
            let w = bigint_from_biguint(&s);
            if neg {
                proof {
                    let i = big_int(integer);
                    assert(-((-i) * SCALE + decimal) == i * SCALE - decimal) by (nonlinear_arith);
                }
                Some(ZzIAmount { scaled: bigint_neg(&w) })
            } else {
                Some(ZzIAmount { scaled: w })
            }
        } else {
            None
        }
    }

    /// The fractional units of the amount's magnitude, in `0..10000`.
    pub fn decimal(&self) -> (r: u32)
        ensures
            r == abs_of(self@) % (SCALE as nat),
            r < SCALE,
    {
        let mag = bigint_magnitude(&self.scaled);
        biguint_rem_u32(&mag, SCALE)
    }

    /// The fractional units are in range; always true of a built amount.
    pub fn validate(&self) -> (r: bool)
        ensures
            r,
    {
        self.decimal() < SCALE
    }

    /// Exact negation.
    pub fn unary(self) -> (r: Self)
        ensures
            r@ == -self@,
    {
        ZzIAmount { scaled: bigint_neg(&self.scaled) }
    }

    /// The zero amount.
    pub fn zero() -> (r: Self)
        ensures
            r@ == 0,
    {
        ZzIAmount { scaled: bigint_from_biguint(&biguint_from_u32(0)) }
    }

    /// Exact in-place addition.
    pub fn add(&mut self, other: &ZzIAmount)
        ensures
            final(self)@ == old(self)@ + other@,
    {
        self.scaled = bigint_add(&self.scaled, &other.scaled);
    }

    /// Exact in-place subtraction.
    pub fn sub(&mut self, other: &ZzIAmount)
        ensures
            final(self)@ == old(self)@ - other@,
    {
        self.scaled = bigint_sub(&self.scaled, &other.scaled);
    }

    /// True exactly when this signed value is at least the given unsigned
    /// amount; a negative value is never at least an unsigned amount.
    pub fn greater_eq_than(&self, other: ZzUAmount) -> (r: bool)
        ensures
            r == (self@ >= other@),
    {
        if bigint_is_negative(&self.scaled) {
            false
        } else {
            let mag = bigint_magnitude(&self.scaled);
            biguint_ge(&mag, &other.scaled)
        }
    }

    /// Value equality.
    pub fn eq_amount(&self, other: &Self) -> (r: bool)
        ensures
            r == (self@ == other@),
    {
        bigint_eq(&self.scaled, &other.scaled)
    }

    /// The textual form of the amount.
    pub fn display_string(&self) -> (r: String)
        ensures
            r@ == spec_display_i(self@),
    {
        let neg = bigint_is_negative(&self.scaled);
        let mag = bigint_magnitude(&self.scaled);
        let body = render_unsigned(&mag);
        if neg {
            proof {
                reveal_strlit("-");
            }
            let mut s = String::from_str("-");
            s.append(body.as_str());
            proof {
                assert(s@ =~= spec_display_i(self@));
            }
            s
        } else {
            body
        }
    }
}

/// Adding an amount and then subtracting the same amount is the identity on
/// any signed amount: the two operations are exact integer moves on the
/// scaled value.
pub proof fn lemma_add_sub_inverse(a: int, b: int)
    ensures
        (a + b) - b == a,
{
}

} // verus!
