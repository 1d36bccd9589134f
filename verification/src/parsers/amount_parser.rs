//! The amount-field grammar: an optional sign (rejected for the unsigned
//! rule), a digit run bounded by the configured maximum, and an optional dot
//! followed by fractional digits, of which only the first four count.

use vstd::prelude::*;

use crate::ZzParseOptions;
use crate::bignum::biguint_parse_digits;
use crate::bignum::dec_digits;
use crate::bignum::digits_val;
use crate::parsers::text::ascii_bytes;
use crate::parsers::text::digit_prefix_len;
use crate::parsers::text::lemma_digit_prefix_at;
use crate::parsers::text::lemma_digits_val_small;
use crate::zz_amount::ZzIAmount;
use crate::zz_amount::ZzUAmount;

verus! {

/// Why an amount failed to parse.
#[derive(Clone, Copy, Debug, PartialEq, Eq, Structural)]
pub enum AmountParseError {
    /// No digit run where one is required, or a sign the rule rejects.
    Invalid,
    /// The integer digit run exceeds the configured maximum; this aborts the
    /// whole row, since such a run risks unbounded growth.
    TooManyDigits,
}

/// Scans an unsigned amount at the front of `s`: a non-empty digit run of at
/// most the configured size, optionally followed by a dot and a non-empty
/// digit run. Yields the scaled value — fractional digits past the fourth
/// are dropped, and fewer than four count as the units they write — and how
/// many bytes the amount occupies.
pub open spec fn spec_scan_amount(opts: ZzParseOptions, s: Seq<u8>) -> Option<(nat, int)> {
    let di = digit_prefix_len(s);
    if di == 0 || di > opts.zz_amount_max_size {
        None
    } else {
        let intval = digits_val(s.take(di));
        if di < s.len() && s[di] == 46 && digit_prefix_len(s.skip(di + 1)) > 0 {
            let fl = digit_prefix_len(s.skip(di + 1));
            let tl = if fl < 4 {
                fl
            } else {
                4
            };
            let frac = digits_val(s.skip(di + 1).take(tl));
            Some((intval * 10000 + frac, di + 1 + fl))
        } else {
            Some((intval * 10000, di))
        }
    }
}

/// `s` with a single leading `+` or `-` removed.
pub open spec fn spec_sign_body(s: Seq<u8>) -> Seq<u8> {
    if s.len() > 0 && (s[0] == 43 || s[0] == 45) {
        s.skip(1)
    } else {
        s
    }
}

/// The error an amount parse reports: an oversized digit run is told apart
/// from every other malformation.
pub open spec fn spec_amount_error(opts: ZzParseOptions, s: Seq<u8>) -> AmountParseError {
    let body = spec_sign_body(s);
    if digit_prefix_len(body) > 0 && digit_prefix_len(body) > opts.zz_amount_max_size {
        AmountParseError::TooManyDigits
    } else {
        AmountParseError::Invalid
    }
}

/// The unsigned amount rule: an optional `+` (a `-` is rejected), then the
/// amount scan; trailing input is ignored.
pub open spec fn spec_parse_amount_u(opts: ZzParseOptions, s: Seq<u8>) -> Option<nat> {
    if s.len() > 0 && s[0] == 45 {
        None
    } else {
        match spec_scan_amount(opts, spec_sign_body(s)) {
            Some(p) => Some(p.0),
            None => None,
        }
    }
}

/// The signed amount rule: an optional `+` or `-`, then the amount scan; a
/// `-` negates the value; trailing input is ignored.
pub open spec fn spec_parse_amount_i(opts: ZzParseOptions, s: Seq<u8>) -> Option<int> {
    match spec_scan_amount(opts, spec_sign_body(s)) {
        Some(p) => Some(
            if s.len() > 0 && s[0] == 45 {
                -(p.0 as int)
            } else {
                p.0 as int
            },
        ),
        None => None,
    }
}

/// The byte of one decimal digit character is its value plus 48, and is an
/// ASCII digit.
pub proof fn lemma_digit_char_byte(d: nat)
    requires
        d < 10,
    ensures
        (crate::bignum::digit_char(d) as u32) as u8 == 48 + d,
{
}

/// The decimal rendering of `n`, taken as bytes, is a non-empty run of
/// ASCII digits denoting `n` again, with no byte that could be mistaken for
/// a sign or a dot.
pub proof fn lemma_dec_digits_bytes(n: nat)
    ensures
        ascii_bytes(dec_digits(n)).len() == dec_digits(n).len(),
        dec_digits(n).len() >= 1,
        crate::bignum::all_digits(ascii_bytes(dec_digits(n))),
        digits_val(ascii_bytes(dec_digits(n))) == n,
    decreases n,
{
    if n < 10 {
        lemma_digit_char_byte(n);
        let s = ascii_bytes(dec_digits(n));
        assert(s =~= seq![(crate::bignum::digit_char(n) as u32) as u8]);
        assert(s.drop_last() =~= Seq::<u8>::empty());
        assert(digits_val(Seq::<u8>::empty()) == 0);
        assert(s.last() == 48 + n);
    } else {
        lemma_dec_digits_bytes(n / 10);
        lemma_digit_char_byte(n % 10);
        let pre = ascii_bytes(dec_digits(n / 10));
        let s = ascii_bytes(dec_digits(n));
        assert(s =~= pre.push((crate::bignum::digit_char(n % 10) as u32) as u8));
        assert(s.drop_last() =~= pre);
        assert(digits_val(s) == digits_val(pre) * 10 + (n % 10));
        vstd::arithmetic::div_mod::lemma_fundamental_div_mod(n as int, 10);
    }
}

/// The four zero-padded fractional digits of `d < 10000`, taken as bytes,
/// are four ASCII digits denoting `d` again.
pub proof fn lemma_frac_digits_bytes(d: nat)
    requires
        d < 10000,
    ensures
        ascii_bytes(crate::zz_amount::frac_digits(d)).len() == 4,
        crate::bignum::all_digits(ascii_bytes(crate::zz_amount::frac_digits(d))),
        digits_val(ascii_bytes(crate::zz_amount::frac_digits(d))) == d,
{
    let d3 = d / 1000 % 10;
    let d2 = d / 100 % 10;
    let d1 = d / 10 % 10;
    let d0 = d % 10;
    lemma_digit_char_byte(d3);
    lemma_digit_char_byte(d2);
    lemma_digit_char_byte(d1);
    lemma_digit_char_byte(d0);
    let s = ascii_bytes(crate::zz_amount::frac_digits(d));
    let b3 = (48 + d3) as u8;
    let b2 = (48 + d2) as u8;
    let b1 = (48 + d1) as u8;
    let b0 = (48 + d0) as u8;
    assert(s =~= seq![b3, b2, b1, b0]);
    assert(seq![b3, b2, b1, b0].drop_last() =~= seq![b3, b2, b1]);
    assert(seq![b3, b2, b1].drop_last() =~= seq![b3, b2]);
    assert(seq![b3, b2].drop_last() =~= seq![b3]);
    assert(seq![b3].drop_last() =~= Seq::<u8>::empty());
    assert(digits_val(Seq::<u8>::empty()) == 0);
    assert(digits_val(seq![b3]) == d3);
    assert(digits_val(seq![b3, b2]) == d3 * 10 + d2);
    assert(digits_val(seq![b3, b2, b1]) == (d3 * 10 + d2) * 10 + d1);
    assert(digits_val(s) == ((d3 * 10 + d2) * 10 + d1) * 10 + d0);
    assert(((d / 1000 % 10) * 10 + d / 100 % 10) * 10 * 10 + (d / 10 % 10) * 10 + d % 10 == d)
        by (nonlinear_arith)
        requires
            d < 10000,
    ;
}

/// Scanning the rendering of a non-negative scaled value `v` yields `v`
/// again and consumes the whole rendering, whenever the integer digits fit
/// the configured maximum.
pub proof fn lemma_scan_display(opts: ZzParseOptions, v: nat)
    requires
        dec_digits(v / 10000).len() <= opts.zz_amount_max_size,
    ensures
        spec_scan_amount(opts, ascii_bytes(crate::zz_amount::spec_display_u(v))) == Some(
            (v, ascii_bytes(crate::zz_amount::spec_display_u(v)).len() as int),
        ),
{
    let q = v / 10000;
    let f = v % 10000;
    lemma_dec_digits_bytes(q);
    vstd::arithmetic::div_mod::lemma_fundamental_div_mod(v as int, 10000);
    let d = ascii_bytes(dec_digits(q));
    if f == 0 {
        let s = ascii_bytes(crate::zz_amount::spec_display_u(v));
        assert(s =~= d);
        crate::parsers::text::lemma_digit_prefix_at(s, s.len() as int);
        assert(s.take(s.len() as int) =~= s);
    } else {
        lemma_frac_digits_bytes(f);
        let fr = ascii_bytes(crate::zz_amount::frac_digits(f));
        let s = ascii_bytes(crate::zz_amount::spec_display_u(v));
        let dl = d.len() as int;
        assert(s =~= d + seq![46u8] + fr);
        assert(forall|m: int| 0 <= m < dl ==> s[m] == d[m]);
        crate::parsers::text::lemma_digit_prefix_at(s, dl);
        assert(s[dl] == 46);
        assert(s.skip(dl + 1) =~= fr);
        crate::parsers::text::lemma_digit_prefix_at(fr, 4);
        assert(s.take(dl) =~= d);
        assert(fr.take(4) =~= fr);
    }
}

/// Round trip, unsigned: rendering any non-negative amount and parsing it
/// back through the unsigned amount rule returns the same value, whenever
/// the integer digits fit the configured maximum.
pub proof fn lemma_display_parse_roundtrip_u(opts: ZzParseOptions, v: nat)
    requires
        dec_digits(v / 10000).len() <= opts.zz_amount_max_size,
    ensures
        spec_parse_amount_u(opts, ascii_bytes(crate::zz_amount::spec_display_u(v))) == Some(v),
{
    lemma_scan_display(opts, v);
    lemma_dec_digits_bytes(v / 10000);
    let s = ascii_bytes(crate::zz_amount::spec_display_u(v));
    assert(s[0] == ascii_bytes(dec_digits(v / 10000))[0]);
    assert(spec_sign_body(s) == s);
}

/// Round trip, signed: rendering any signed amount and parsing it back
/// through the signed amount rule returns the same value, whenever the
/// integer digits of its magnitude fit the configured maximum.
pub proof fn lemma_display_parse_roundtrip_i(opts: ZzParseOptions, v: int)
    requires
        dec_digits(crate::zz_amount::abs_of(v) / 10000).len() <= opts.zz_amount_max_size,
    ensures
        spec_parse_amount_i(opts, ascii_bytes(crate::zz_amount::spec_display_i(v))) == Some(v),
{
    let m = crate::zz_amount::abs_of(v);
    lemma_scan_display(opts, m);
    lemma_dec_digits_bytes(m / 10000);
    let body = ascii_bytes(crate::zz_amount::spec_display_u(m));
    let s = ascii_bytes(crate::zz_amount::spec_display_i(v));
    if v < 0 {
        assert(s =~= seq![45u8] + body);
        assert(s.skip(1) =~= body);
        assert(spec_sign_body(s) == s.skip(1));
    } else {
        assert(s =~= body);
        assert(s[0] == ascii_bytes(dec_digits(m / 10000))[0]);
        assert(spec_sign_body(s) == s);
    }
}

/// Executable amount scan, per `spec_scan_amount`.
pub fn scan_amount(opts: &ZzParseOptions, s: &[u8]) -> (r: Result<(ZzUAmount, usize), AmountParseError>)
    ensures
        match r {
            Ok(p) => spec_scan_amount(*opts, s@) matches Some(q) && q.0 == p.0@ && q.1 == p.1,
            Err(e) => spec_scan_amount(*opts, s@) is None && e == (
            if digit_prefix_len(s@) == 0 {
                AmountParseError::Invalid
            } else {
                AmountParseError::TooManyDigits
            }),
        },
{
    let n = s.len();
    let mut di: usize = 0;
    while di < n && s[di] >= 48 && s[di] <= 57
        invariant
            0 <= di <= n,
            n == s@.len(),
            forall|m: int| 0 <= m < di ==> crate::parsers::text::is_digit(s@[m]),
        decreases n - di,
    {
        di += 1;
    }
    proof {
        lemma_digit_prefix_at(s@, di as int);
    }
    if di == 0 {
        return Err(AmountParseError::Invalid);
    }
    if di > opts.zz_amount_max_size as usize {
        return Err(AmountParseError::TooManyDigits);
    }
    let int_part = vstd::slice::slice_subrange(s, 0, di);
    proof {
        assert(int_part@ =~= s@.take(di as int));
    }
    let int_big = biguint_parse_digits(int_part);
    let a0 = ZzUAmount::new(int_big, 0);
    let whole = match a0 {
        Some(a) => a,
        None => {
            proof {
                assert(false);
            }
            return Err(AmountParseError::Invalid);
        },
    };
    if di < n && s[di] == 46 {
        let mut e: usize = di + 1;
        while e < n && s[e] >= 48 && s[e] <= 57
            invariant
                di + 1 <= e <= n,
                n == s@.len(),
                forall|m: int| di + 1 <= m < e ==> crate::parsers::text::is_digit(s@[m]),
            decreases n - e,
        {
            e += 1;
        }
        let fl = e - (di + 1);
        proof {
            let tail = s@.skip(di + 1);
            assert(forall|m: int| 0 <= m < tail.len() ==> tail[m] == s@[m + di + 1]);
            lemma_digit_prefix_at(tail, fl as int);
        }
        if fl > 0 {
            let tl: usize = if fl < 4 {
                fl
            } else {
                4
            };
            let frac_part = vstd::slice::slice_subrange(s, di + 1, di + 1 + tl);
            proof {
                assert(frac_part@ =~= s@.skip(di + 1).take(tl as int));
                assert(crate::bignum::all_digits(frac_part@));
                lemma_digits_val_small(frac_part@);
            }
            let frac = match crate::parsers::text::parse_uint_bounded(frac_part, 9999) {
                Some(v) => v as u32,
                None => {
                    proof {
                        assert(false);
                    }
                    0
                },
            };
            let int_big2 = biguint_parse_digits(int_part);
            let a1 = ZzUAmount::new(int_big2, frac);
            let scaled = match a1 {
                Some(a) => a,
                None => {
                    proof {
                        assert(false);
                    }
                    return Err(AmountParseError::Invalid);
                },
            };
            return Ok((scaled, di + 1 + fl));
        }
    }
    Ok((whole, di))
}

/// Parses an unsigned amount at the front of `input`; a leading `-` is
/// rejected, since wire amounts cannot be negative.
pub fn parse_zzamount_u(opts: &ZzParseOptions, input: &[u8]) -> (r: Result<
    ZzUAmount,
    AmountParseError,
>)
    ensures
        match r {
            Ok(a) => spec_parse_amount_u(*opts, input@) == Some(a@),
            Err(e) => spec_parse_amount_u(*opts, input@) is None && e == spec_amount_error(
                *opts,
                input@,
            ),
        },
{
    let n = input.len();
    if n > 0 && (input[0] == 43 || input[0] == 45) {
        let body = vstd::slice::slice_subrange(input, 1, n);
        proof {
            assert(body@ =~= spec_sign_body(input@));
        }
        match scan_amount(opts, body) {
            Ok(p) => {
                if input[0] == 45 {
                    Err(AmountParseError::Invalid)
                } else {
                    Ok(p.0)
                }
            },
            Err(e) => Err(e),
        }
    } else {
        proof {
            assert(input@ =~= spec_sign_body(input@));
        }
        match scan_amount(opts, input) {
            Ok(p) => Ok(p.0),
            Err(e) => Err(e),
        }
    }
}

/// Parses a signed amount at the front of `input`; a leading `-` negates
/// the parsed value exactly.
pub fn parse_zzamount_i(opts: &ZzParseOptions, input: &[u8]) -> (r: Result<
    ZzIAmount,
    AmountParseError,
>)
    ensures
        match r {
            Ok(a) => spec_parse_amount_i(*opts, input@) == Some(a@),
            Err(e) => spec_parse_amount_i(*opts, input@) is None && e == spec_amount_error(
                *opts,
                input@,
            ),
        },
{
    let n = input.len();
    if n > 0 && (input[0] == 43 || input[0] == 45) {
        let body = vstd::slice::slice_subrange(input, 1, n);
        proof {
            assert(body@ =~= spec_sign_body(input@));
        }
        match scan_amount(opts, body) {
            Ok(p) => {
                let widened = p.0.to_i_amount();
                if input[0] == 45 {
                    Ok(widened.unary())
                } else {
                    Ok(widened)
                }
            },
            Err(e) => Err(e),
        }
    } else {
        proof {
            assert(input@ =~= spec_sign_body(input@));
        }
        match scan_amount(opts, input) {
            Ok(p) => Ok(p.0.to_i_amount()),
            Err(e) => Err(e),
        }
    }
}

} // verus!
