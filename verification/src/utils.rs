//! Rendering of the final balance sheet: a header line, then one line per
//! account that saw any activity, in account-id order.

use vstd::prelude::*;

use crate::bignum::biguint_from_u32;
use crate::bignum::biguint_to_string;
use crate::bignum::dec_digits;
use crate::client_balance::BalV;
use crate::client_balance::ZzClientBalance;
use crate::zz_amount::spec_display_i;
use vstd::string::StringExecFns;

verus! {

/// The sheet's header line.
pub open spec fn spec_sheet_header() -> Seq<char> {
    "client,available,held,total,locked\n"@
}

/// One account's line: id, available, held, total, and the lock flag,
/// comma separated.
pub open spec fn spec_balance_row(b: BalV) -> Seq<char> {
    dec_digits(b.client_id as nat) + ","@ + spec_display_i(b.available) + ","@ + spec_display_i(
        b.held,
    ) + ","@ + spec_display_i(b.total) + ","@ + (if b.locked {
        "true"@
    } else {
        "false"@
    }) + "\n"@
}

/// The lines of every used slot from position `k` on, in order.
pub open spec fn spec_sheet_rows_from(balances: Seq<Option<BalV>>, k: int) -> Seq<char>
    decreases balances.len() - k,
{
    if k < 0 || k >= balances.len() {
        Seq::empty()
    } else {
        (match balances[k] {
            Some(b) => spec_balance_row(b),
            None => Seq::empty(),
        }) + spec_sheet_rows_from(balances, k + 1)
    }
}

/// The whole sheet: the header, then every used slot's line.
pub open spec fn spec_sheet(balances: Seq<Option<BalV>>) -> Seq<char> {
    spec_sheet_header() + spec_sheet_rows_from(balances, 0)
}

/// One account's line, per `spec_balance_row`.
fn render_balance_row(b: &ZzClientBalance) -> (r: String)
    ensures
        r@ == spec_balance_row(b@),
{
    let id_big = biguint_from_u32(b.client_id as u32);
    let mut s = biguint_to_string(&id_big);
    s.append(",");
    let available = b.available.display_string();
    s.append(available.as_str());
    s.append(",");
    let held = b.held.display_string();
    s.append(held.as_str());
    s.append(",");
    let total = b.total.display_string();
    s.append(total.as_str());
    s.append(",");
    if b.locked {
        s.append("true");
    } else {
        s.append("false");
    }
    s.append("\n");
    s
}

/// Renders the balance sheet of a finished run as CSV text, ready to be
/// written out unchanged.
#[verifier::loop_isolation(false)]
pub fn write_csv_client_balance_sheet(sheet: &Vec<Option<ZzClientBalance>>) -> (r: String)
    ensures
        r@ == spec_sheet(crate::parsers::csv_parser::balances_view(sheet@)),
{
    let ghost v = crate::parsers::csv_parser::balances_view(sheet@);
    let mut s = String::from_str("client,available,held,total,locked\n");
    let n = sheet.len();
    let mut k: usize = 0;
    proof {
        assert(v.len() == sheet@.len());
    }
    while k < n
        invariant
            k <= n,
            spec_sheet(v) == s@ + spec_sheet_rows_from(v, k as int),
        decreases n - k,
    {
        match &sheet[k] {
            Some(b) => {
                proof {
                    assert(v[k as int] == Some(b@));
                }
                let row = render_balance_row(b);
                s.append(row.as_str());
            },
            None => {
                proof {
                    assert(v[k as int] is None);
                }
            },
        }
        k += 1;
    }
    proof {
        assert(spec_sheet_rows_from(v, n as int) =~= Seq::<char>::empty());
        assert(s@ =~= spec_sheet(v));
    }
    s
}

} // verus!
