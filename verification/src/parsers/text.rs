//! Byte-level text helpers shared by the row grammars: field splitting,
//! whitespace trimming, and bounded digit-run parsing.

use vstd::prelude::*;

use crate::bignum::all_digits;
use crate::bignum::digits_val;

verus! {

/// ASCII whitespace as the grammar trims it: space, tab, carriage return,
/// line feed.
pub open spec fn is_space(b: u8) -> bool {
    b == 32 || b == 9 || b == 13 || b == 10
}

/// ASCII decimal digit.
pub open spec fn is_digit(b: u8) -> bool {
    48 <= b <= 57
}

/// The index of the first occurrence of `x` in `s`, or `-1` when absent.
pub open spec fn first_index(s: Seq<u8>, x: u8) -> int
    decreases s.len(),
{
    if s.len() == 0 {
        -1
    } else if s[0] == x {
        0
    } else {
        let r = first_index(s.drop_first(), x);
        if r < 0 {
            -1
        } else {
            r + 1
        }
    }
}

/// What `first_index` finds: a real first occurrence, or no occurrence.
pub proof fn lemma_first_index_props(s: Seq<u8>, x: u8)
    ensures
        first_index(s, x) == -1 ==> forall|m: int| 0 <= m < s.len() ==> s[m] != x,
        first_index(s, x) != -1 ==> {
            &&& 0 <= first_index(s, x) < s.len()
            &&& s[first_index(s, x)] == x
            &&& forall|m: int| 0 <= m < first_index(s, x) ==> s[m] != x
        },
    decreases s.len(),
{
    if s.len() == 0 {
    } else if s[0] == x {
    } else {
        let t = s.drop_first();
        lemma_first_index_props(t, x);
        assert(forall|m: int| 0 <= m < t.len() ==> t[m] == s[m + 1]);
        if first_index(t, x) == -1 {
            assert forall|m: int| 0 <= m < s.len() implies s[m] != x by {
                if m >= 1 {
                    assert(t[m - 1] != x);
                }
            }
        } else {
            let r = first_index(t, x);
            assert(s[r + 1] == t[r]);
            assert forall|m: int| 0 <= m < r + 1 implies s[m] != x by {
                if m >= 1 {
                    assert(t[m - 1] != x);
                }
            }
        }
    }
}

/// `first_index` is pinned down by any witness of a first occurrence.
pub proof fn lemma_first_index_determined(s: Seq<u8>, x: u8, j: int)
    requires
        0 <= j <= s.len(),
        forall|m: int| 0 <= m < j ==> s[m] != x,
        j < s.len() ==> s[j] == x,
    ensures
        j < s.len() ==> first_index(s, x) == j,
        j == s.len() ==> first_index(s, x) == -1,
{
    lemma_first_index_props(s, x);
    let fi = first_index(s, x);
    if j < s.len() {
        if fi == -1 {
            assert(s[j] != x);
        } else {
            if fi < j {
                assert(s[fi] != x);
            }
            if fi > j {
                assert(s[j] != x);
            }
        }
    } else {
        if fi != -1 {
            assert(s[fi] != x);
        }
    }
}

/// The fields of `s` split on the byte `x`: one more field than there are
/// separators, in order, separators dropped.
pub open spec fn split_on(s: Seq<u8>, x: u8) -> Seq<Seq<u8>>
    decreases s.len(),
{
    let i = first_index(s, x);
    if i < 0 || i >= s.len() {
        seq![s]
    } else {
        seq![s.take(i)] + split_on(s.skip(i + 1), x)
    }
}

/// The field at position `k` when `s` is split on `x`; positions past the
/// last field read as empty.
pub open spec fn field_at(s: Seq<u8>, x: u8, k: int) -> Seq<u8> {
    let fs = split_on(s, x);
    if 0 <= k < fs.len() {
        fs[k]
    } else {
        Seq::empty()
    }
}

/// `s` without leading whitespace.
pub open spec fn spec_trim_front(s: Seq<u8>) -> Seq<u8>
    decreases s.len(),
{
    if s.len() > 0 && is_space(s[0]) {
        spec_trim_front(s.drop_first())
    } else {
        s
    }
}

/// `s` without trailing whitespace.
pub open spec fn spec_trim_back(s: Seq<u8>) -> Seq<u8>
    decreases s.len(),
{
    if s.len() > 0 && is_space(s.last()) {
        spec_trim_back(s.drop_last())
    } else {
        s
    }
}

/// `s` without leading or trailing whitespace.
pub open spec fn spec_trim(s: Seq<u8>) -> Seq<u8> {
    spec_trim_back(spec_trim_front(s))
}

/// Dropping a known run of leading whitespace computes `spec_trim_front`.
pub proof fn lemma_trim_front_at(s: Seq<u8>, i: int)
    requires
        0 <= i <= s.len(),
        forall|m: int| 0 <= m < i ==> is_space(s[m]),
        i < s.len() ==> !is_space(s[i]),
    ensures
        spec_trim_front(s) =~= s.skip(i),
    decreases i,
{
    if i == 0 {
        assert(s.skip(0) =~= s);
    } else {
        let t = s.drop_first();
        assert(forall|m: int| 0 <= m < t.len() ==> t[m] == s[m + 1]);
        lemma_trim_front_at(t, i - 1);
        assert(t.skip(i - 1) =~= s.skip(i));
    }
}

/// Cutting a known run of trailing whitespace computes `spec_trim_back`.
pub proof fn lemma_trim_back_at(s: Seq<u8>, j: int)
    requires
        0 <= j <= s.len(),
        forall|m: int| j <= m < s.len() ==> is_space(s[m]),
        j > 0 ==> !is_space(s[j - 1]),
    ensures
        spec_trim_back(s) =~= s.take(j),
    decreases s.len(),
{
    if s.len() > 0 && is_space(s.last()) {
        assert(j < s.len());
        let t = s.drop_last();
        assert(forall|m: int| 0 <= m < t.len() ==> t[m] == s[m]);
        lemma_trim_back_at(t, j);
        assert(t.take(j) =~= s.take(j));
    } else {
        if s.len() > 0 && j < s.len() {
            assert(is_space(s[s.len() - 1]));
        }
        assert(j == s.len());
        assert(s.take(j) =~= s);
    }
}

/// The length of the run of digits at the front of `s`.
pub open spec fn digit_prefix_len(s: Seq<u8>) -> int
    decreases s.len(),
{
    if s.len() > 0 && is_digit(s[0]) {
        1 + digit_prefix_len(s.drop_first())
    } else {
        0
    }
}

/// What `digit_prefix_len` counts: the longest digit run at the front.
pub proof fn lemma_digit_prefix_at(s: Seq<u8>, i: int)
    requires
        0 <= i <= s.len(),
        forall|m: int| 0 <= m < i ==> is_digit(s[m]),
        i < s.len() ==> !is_digit(s[i]),
    ensures
        digit_prefix_len(s) == i,
    decreases i,
{
    if i == 0 {
    } else {
        let t = s.drop_first();
        assert(forall|m: int| 0 <= m < t.len() ==> t[m] == s[m + 1]);
        lemma_digit_prefix_at(t, i - 1);
    }
}

/// A digit string's value only grows as more digits are appended: the value
/// of any prefix is at most the value of the whole.
pub proof fn lemma_digits_val_prefix(s: Seq<u8>, i: int)
    requires
        0 <= i <= s.len(),
        all_digits(s),
    ensures
        digits_val(s.take(i)) <= digits_val(s),
    decreases s.len(),
{
    if i == s.len() {
        assert(s.take(i) =~= s);
    } else {
        let t = s.drop_last();
        assert(all_digits(t));
        assert(s.take(i) =~= t.take(i));
        lemma_digits_val_prefix(t, i);
        assert(digits_val(s) == digits_val(t) * 10 + (s.last() - 48) as nat);
        assert(digits_val(t) * 10 >= digits_val(t)) by (nonlinear_arith);
    }
}

/// A sequence of characters as ASCII bytes, code point by code point.
pub open spec fn ascii_bytes(s: Seq<char>) -> Seq<u8> {
    s.map_values(|c: char| (c as u32) as u8)
}

/// At most four decimal digits denote at most 9999.
pub proof fn lemma_digits_val_small(s: Seq<u8>)
    requires
        all_digits(s),
        s.len() <= 4,
    ensures
        digits_val(s) <= 9999,
    decreases s.len(),
{
    if s.len() > 0 {
        let t = s.drop_last();
        assert(all_digits(t));
        lemma_digits_val_small(t);
        if s.len() == 1 {
            assert(digits_val(t) == 0);
        } else if s.len() == 2 {
            assert(digits_val(t) <= 9) by {
                lemma_digits_val_max_for(t, 9);
            }
        } else if s.len() == 3 {
            assert(digits_val(t) <= 99) by {
                lemma_digits_val_max_for(t, 99);
            }
        } else {
            assert(digits_val(t) <= 999) by {
                lemma_digits_val_max_for(t, 999);
            }
        }
    }
}

/// Helper bound: `k + 1` digits denote at most `10 * b + 9` when `k` digits
/// denote at most `b`; stated as the closed forms needed above.
pub proof fn lemma_digits_val_max_for(s: Seq<u8>, b: nat)
    requires
        all_digits(s),
        b == 9 && s.len() <= 1 || b == 99 && s.len() <= 2 || b == 999 && s.len() <= 3,
    ensures
        digits_val(s) <= b,
    decreases s.len(),
{
    if s.len() > 0 {
        let t = s.drop_last();
        assert(all_digits(t));
        if s.len() == 1 {
            assert(digits_val(t) == 0);
        } else if s.len() == 2 {
            lemma_digits_val_max_for(t, 9);
        } else {
            lemma_digits_val_max_for(t, 99);
        }
    }
}

/// Whether two byte slices hold the same bytes.
pub fn bytes_eq(a: &[u8], b: &[u8]) -> (r: bool)
    ensures
        r == (a@ == b@),
{
    if a.len() != b.len() {
        proof {
            assert(a@.len() != b@.len());
        }
        return false;
    }
    let n = a.len();
    let mut i: usize = 0;
    while i < n
        invariant
            n == a@.len() == b@.len(),
            0 <= i <= n,
            forall|m: int| 0 <= m < i ==> a@[m] == b@[m],
        decreases n - i,
    {
        if a[i] != b[i] {
            return false;
        }
        i += 1;
    }
    proof {
        assert(a@ =~= b@);
    }
    true
}

/// The index of the first occurrence of `x` in `s` at or after `from`, or
/// the slice's length when there is none.
pub fn find_from(s: &[u8], from: usize, x: u8) -> (i: usize)
    requires
        from <= s@.len(),
    ensures
        from <= i <= s@.len(),
        i < s@.len() ==> s@[i as int] == x,
        forall|m: int| from <= m < i ==> s@[m] != x,
        first_index(s@.skip(from as int), x) == if i < s@.len() {
            i - from
        } else {
            -1
        },
{
    let n = s.len();
    let mut i: usize = from;
    while i < n
        invariant
            from <= i <= n,
            n == s@.len(),
            forall|m: int| from <= m < i ==> s@[m] != x,
        decreases n - i,
    {
        if s[i] == x {
            proof {
                let t = s@.skip(from as int);
                assert(forall|m: int| 0 <= m < t.len() ==> t[m] == s@[m + from]);
                lemma_first_index_determined(t, x, i - from);
            }
            return i;
        }
        i += 1;
    }
    proof {
        let t = s@.skip(from as int);
        assert(forall|m: int| 0 <= m < t.len() ==> t[m] == s@[m + from]);
        lemma_first_index_determined(t, x, t.len() as int);
    }
    n
}

/// The views of a sequence of byte vectors.
pub open spec fn seqs_of(fields: Seq<Vec<u8>>) -> Seq<Seq<u8>> {
    fields.map_values(|f: Vec<u8>| f@)
}

/// Splits a byte slice on a separator byte, per `split_on`.
pub fn split_bytes(row: &[u8], sep: u8) -> (fields: Vec<Vec<u8>>)
    ensures
        seqs_of(fields@) == split_on(row@, sep),
{
    let n = row.len();
    let mut fields: Vec<Vec<u8>> = Vec::new();
    let mut start: usize = 0;
    proof {
        assert(row@.skip(0) =~= row@);
        assert(seqs_of(fields@) + split_on(row@, sep) =~= split_on(row@, sep));
    }
    loop
        invariant
            start <= n,
            n == row@.len(),
            split_on(row@, sep) =~= seqs_of(fields@) + split_on(row@.skip(start as int), sep),
        decreases n - start,
    {
        let i = find_from(row, start, sep);
        let ghost rest = row@.skip(start as int);
        let ghost pre = seqs_of(fields@);
        if i < n {
            let field = vstd::slice::slice_to_vec(vstd::slice::slice_subrange(row, start, i));
            proof {
                assert(rest.take(i - start) =~= row@.subrange(start as int, i as int));
                assert(rest.skip(i - start + 1) =~= row@.skip(i + 1));
                assert(split_on(rest, sep) == seq![rest.take(i - start)] + split_on(
                    rest.skip(i - start + 1),
                    sep,
                ));
            }
            fields.push(field);
            proof {
                assert(seqs_of(fields@) =~= pre.push(field@));
                assert(pre.push(field@) + split_on(row@.skip(i + 1), sep) =~= pre + (seq![field@]
                    + split_on(row@.skip(i + 1), sep)));
            }
            start = i + 1;
        } else {
            let field = vstd::slice::slice_to_vec(vstd::slice::slice_subrange(row, start, n));
            proof {
                assert(rest =~= row@.subrange(start as int, n as int));
                assert(split_on(rest, sep) == seq![rest]);
            }
            fields.push(field);
            proof {
                assert(seqs_of(fields@) =~= pre.push(field@));
                assert(pre.push(field@) =~= pre + seq![field@]);
            }
            return fields;
        }
    }
}

/// Parses a non-empty all-digit slice as an unsigned integer of value at
/// most `max`; anything else yields `None`.
pub fn parse_uint_bounded(s: &[u8], max: u64) -> (r: Option<u64>)
    requires
        max <= 0xFFFF_FFFF,
    ensures
        match r {
            Some(v) => s@.len() > 0 && all_digits(s@) && v == digits_val(s@) && v <= max,
            None => !(s@.len() > 0 && all_digits(s@) && digits_val(s@) <= max),
        },
{
    let n = s.len();
    if n == 0 {
        return None;
    }
    let mut acc: u64 = 0;
    let mut i: usize = 0;
    while i < n
        invariant
            0 <= i <= n,
            n == s@.len(),
            n > 0,
            max <= 0xFFFF_FFFF,
            all_digits(s@.take(i as int)),
            acc == digits_val(s@.take(i as int)),
            acc <= max,
        decreases n - i,
    {
        let b = s[i];
        if b < 48 || b > 57 {
            proof {
                assert(!all_digits(s@));
            }
            return None;
        }
        let d = (b - 48) as u64;
        let next = acc * 10 + d;
        proof {
            assert(s@.take(i + 1).drop_last() =~= s@.take(i as int));
            assert(s@.take(i + 1).last() == s@[i as int]);
        }
        if next > max {
            proof {
                assert(all_digits(s@.take(i + 1)));
                if all_digits(s@) {
                    lemma_digits_val_prefix(s@, i + 1);
                }
            }
            return None;
        }
        acc = next;
        i += 1;
    }
    proof {
        assert(s@.take(n as int) =~= s@);
    }
    Some(acc)
}

/// Trims whitespace from both ends of a byte slice, per `spec_trim`.
pub fn trim_slice<'a>(s: &'a [u8]) -> (r: &'a [u8])
    ensures
        r@ == spec_trim(s@),
{
    let n = s.len();
    let mut i: usize = 0;
    while i < n && (s[i] == 32 || s[i] == 9 || s[i] == 13 || s[i] == 10)
        invariant
            0 <= i <= n,
            n == s@.len(),
            forall|m: int| 0 <= m < i ==> is_space(s@[m]),
        decreases n - i,
    {
        i += 1;
    }
    proof {
        lemma_trim_front_at(s@, i as int);
    }
    let mut j: usize = n;
    while j > i && (s[j - 1] == 32 || s[j - 1] == 9 || s[j - 1] == 13 || s[j - 1] == 10)
        invariant
            i <= j <= n,
            n == s@.len(),
            forall|m: int| 0 <= m < i ==> is_space(s@[m]),
            i < n ==> !is_space(s@[i as int]),
            forall|m: int| j <= m < n ==> is_space(s@[m]),
        decreases j,
    {
        j -= 1;
    }
    let r = vstd::slice::slice_subrange(s, i, j);
    proof {
        let t = s@.skip(i as int);
        assert(forall|m: int| 0 <= m < t.len() ==> t[m] == s@[m + i]);
        if j > i {
            assert(!is_space(s@[j - 1]));
        }
        lemma_trim_back_at(t, j - i);
        assert(t.take(j - i) =~= s@.subrange(i as int, j as int));
    }
    r
}

} // verus!
