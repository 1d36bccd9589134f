//! The hand-rolled row grammar: comma-separated fields, a transaction kind
//! tag, a 16-bit account id, a 32-bit transaction id, and an optional
//! unsigned amount. Whitespace around fields is trimmed unless the options
//! say otherwise; columns past the fourth are ignored.

use vstd::prelude::*;

use crate::ZzParseOptions;
use crate::bignum::all_digits;
use crate::bignum::digits_val;
use crate::parsers::amount_parser::scan_amount;
use crate::parsers::amount_parser::spec_scan_amount;
use crate::parsers::csv_parser::CsvParserResult;
use crate::parsers::csv_parser::CsvZzTxParserTrait;
use crate::parsers::csv_parser::RowOutcomeV;
use crate::parsers::text::bytes_eq;
use crate::parsers::text::field_at;
use crate::parsers::text::seqs_of;
use crate::parsers::text::spec_trim;
use crate::parsers::text::split_bytes;
use crate::parsers::text::split_on;
use crate::parsers::text::trim_slice;
use crate::transaction::TxTypeV;
use crate::transaction::TxV;
use crate::transaction::ZzTx;
use crate::transaction::ZzTxType;

verus! {

/// The bytes of the word `deposit`.
pub open spec fn tag_deposit() -> Seq<u8> {
    seq![100u8, 101u8, 112u8, 111u8, 115u8, 105u8, 116u8]
}

/// The bytes of the word `withdrawal`.
pub open spec fn tag_withdrawal() -> Seq<u8> {
    seq![119u8, 105u8, 116u8, 104u8, 100u8, 114u8, 97u8, 119u8, 97u8, 108u8]
}

/// The bytes of the word `dispute`.
pub open spec fn tag_dispute() -> Seq<u8> {
    seq![100u8, 105u8, 115u8, 112u8, 117u8, 116u8, 101u8]
}

/// The bytes of the word `resolve`.
pub open spec fn tag_resolve() -> Seq<u8> {
    seq![114u8, 101u8, 115u8, 111u8, 108u8, 118u8, 101u8]
}

/// The bytes of the word `chargeback`.
pub open spec fn tag_chargeback() -> Seq<u8> {
    seq![99u8, 104u8, 97u8, 114u8, 103u8, 101u8, 98u8, 97u8, 99u8, 107u8]
}

/// The bytes of the header word `type`.
pub open spec fn tag_type() -> Seq<u8> {
    seq![116u8, 121u8, 112u8, 101u8]
}

/// The bytes of the header word `client`.
pub open spec fn tag_client() -> Seq<u8> {
    seq![99u8, 108u8, 105u8, 101u8, 110u8, 116u8]
}

/// The bytes of the header word `tx`.
pub open spec fn tag_tx() -> Seq<u8> {
    seq![116u8, 120u8]
}

/// The bytes of the header word `amount`.
pub open spec fn tag_amount() -> Seq<u8> {
    seq![97u8, 109u8, 111u8, 117u8, 110u8, 116u8]
}

/// A recognized transaction kind tag.
#[derive(Clone, Copy, Debug, PartialEq, Eq, Structural)]
pub enum TagKind {
    Deposit,
    Withdrawal,
    Dispute,
    Resolve,
    Chargeback,
}

/// Which transaction kind a field names, if any.
pub open spec fn spec_tx_tag(f: Seq<u8>) -> Option<TagKind> {
    if f == tag_deposit() {
        Some(TagKind::Deposit)
    } else if f == tag_withdrawal() {
        Some(TagKind::Withdrawal)
    } else if f == tag_dispute() {
        Some(TagKind::Dispute)
    } else if f == tag_resolve() {
        Some(TagKind::Resolve)
    } else if f == tag_chargeback() {
        Some(TagKind::Chargeback)
    } else {
        None
    }
}

/// The effective content of column `k`: the raw field, or the field with
/// surrounding whitespace trimmed; columns past the last read as empty.
pub open spec fn eff_field(opts: ZzParseOptions, row: Seq<u8>, k: int) -> Seq<u8> {
    if opts.dont_trim_spaces {
        field_at(row, 44, k)
    } else {
        spec_trim(field_at(row, 44, k))
    }
}

/// A header column is accepted when it is absent, empty, or exactly its
/// expected word.
pub open spec fn header_field_ok(f: Seq<u8>, tag: Seq<u8>) -> bool {
    f.len() == 0 || f == tag
}

/// Whether a line is a recognized header row: each of the first four columns
/// is empty or its expected word; later columns are ignored.
pub open spec fn spec_parse_headers(opts: ZzParseOptions, row: Seq<u8>) -> bool {
    &&& header_field_ok(eff_field(opts, row, 0), tag_type())
    &&& header_field_ok(eff_field(opts, row, 1), tag_client())
    &&& header_field_ok(eff_field(opts, row, 2), tag_tx())
    &&& header_field_ok(eff_field(opts, row, 3), tag_amount())
}

/// The outcome of one complete row. Columns are examined left to right: an
/// empty required column reports a missing field at once; a malformed column
/// fails the whole row; the kind-and-amount table then decides between a
/// parsed record, a missing amount, and an excess amount.
pub open spec fn spec_parse_row(opts: ZzParseOptions, row: Seq<u8>) -> RowOutcomeV {
    let t = eff_field(opts, row, 0);
    if t.len() == 0 {
        RowOutcomeV::MissingRequiredField
    } else {
        match spec_tx_tag(t) {
            None => RowOutcomeV::Failed,
            Some(kind) => {
                let c = eff_field(opts, row, 1);
                if c.len() != 0 && !(all_digits(c) && digits_val(c) <= 65535) {
                    RowOutcomeV::Failed
                } else if c.len() == 0 {
                    RowOutcomeV::MissingRequiredField
                } else {
                    let x = eff_field(opts, row, 2);
                    if x.len() != 0 && !(all_digits(x) && digits_val(x) <= 0xFFFF_FFFF) {
                        RowOutcomeV::Failed
                    } else if x.len() == 0 {
                        RowOutcomeV::MissingRequiredField
                    } else {
                        spec_row_tail(
                            opts,
                            row,
                            kind,
                            digits_val(c) as u16,
                            digits_val(x) as u32,
                        )
                    }
                }
            },
        }
    }
}

/// The amount column and the kind-and-amount table.
pub open spec fn spec_row_tail(
    opts: ZzParseOptions,
    row: Seq<u8>,
    kind: TagKind,
    client_id: u16,
    tx_id: u32,
) -> RowOutcomeV {
    let a = eff_field(opts, row, 3);
    if a.len() == 0 {
        match kind {
            TagKind::Deposit => RowOutcomeV::MissingRequiredField,
            TagKind::Withdrawal => RowOutcomeV::MissingRequiredField,
            TagKind::Dispute => RowOutcomeV::Parsed(
                TxV { tx_type: TxTypeV::Dispute, client_id, tx_id },
            ),
            TagKind::Resolve => RowOutcomeV::Parsed(
                TxV { tx_type: TxTypeV::Resolve, client_id, tx_id },
            ),
            TagKind::Chargeback => RowOutcomeV::Parsed(
                TxV { tx_type: TxTypeV::Chargeback, client_id, tx_id },
            ),
        }
    } else {
        let scan = spec_scan_amount(opts, a);
        if scan is Some && scan.unwrap().1 == a.len() {
            let v = scan.unwrap().0;
            match kind {
                TagKind::Deposit => RowOutcomeV::Parsed(
                    TxV { tx_type: TxTypeV::Deposit(v), client_id, tx_id },
                ),
                TagKind::Withdrawal => RowOutcomeV::Parsed(
                    TxV { tx_type: TxTypeV::Withdrawal(v), client_id, tx_id },
                ),
                TagKind::Dispute => RowOutcomeV::ContainsExcessiveFields(
                    TxV { tx_type: TxTypeV::Dispute, client_id, tx_id },
                ),
                TagKind::Resolve => RowOutcomeV::ContainsExcessiveFields(
                    TxV { tx_type: TxTypeV::Resolve, client_id, tx_id },
                ),
                TagKind::Chargeback => RowOutcomeV::ContainsExcessiveFields(
                    TxV { tx_type: TxTypeV::Chargeback, client_id, tx_id },
                ),
            }
        } else {
            RowOutcomeV::Failed
        }
    }
}

/// A row the grammar rejects outright.
#[derive(Clone, Copy, Debug, PartialEq, Eq, Structural)]
pub struct RowParseError;

/// Which transaction kind a field names, if any.
fn match_tx_tag(f: &[u8]) -> (r: Option<TagKind>)
    ensures
        r == spec_tx_tag(f@),
{
    let deposit: [u8; 7] = [100, 101, 112, 111, 115, 105, 116];
    let withdrawal: [u8; 10] = [119, 105, 116, 104, 100, 114, 97, 119, 97, 108];
    let dispute: [u8; 7] = [100, 105, 115, 112, 117, 116, 101];
    let resolve: [u8; 7] = [114, 101, 115, 111, 108, 118, 101];
    let chargeback: [u8; 10] = [99, 104, 97, 114, 103, 101, 98, 97, 99, 107];
    proof {
        assert(deposit@ =~= tag_deposit());
        assert(withdrawal@ =~= tag_withdrawal());
        assert(dispute@ =~= tag_dispute());
        assert(resolve@ =~= tag_resolve());
        assert(chargeback@ =~= tag_chargeback());
    }
    if bytes_eq(f, deposit.as_slice()) {
        Some(TagKind::Deposit)
    } else if bytes_eq(f, withdrawal.as_slice()) {
        Some(TagKind::Withdrawal)
    } else if bytes_eq(f, dispute.as_slice()) {
        Some(TagKind::Dispute)
    } else if bytes_eq(f, resolve.as_slice()) {
        Some(TagKind::Resolve)
    } else if bytes_eq(f, chargeback.as_slice()) {
        Some(TagKind::Chargeback)
    } else {
        None
    }
}

/// Splits a row into its first four columns, absent columns reading as
/// empty.
fn four_fields(row: &[u8]) -> (fields: Vec<Vec<u8>>)
    ensures
        fields@.len() == 4,
        forall|k: int| 0 <= k < 4 ==> #[trigger] fields@[k]@ == field_at(row@, 44, k),
{
    let mut fields = split_bytes(row, 44);
    let ghost full = split_on(row@, 44);
    proof {
        assert(seqs_of(fields@).len() == full.len());
    }
    let ghost orig_len = fields@.len();
    while fields.len() < 4
        invariant
            orig_len == full.len(),
            fields@.len() >= orig_len,
            forall|k: int|
                0 <= k < fields@.len() ==> #[trigger] fields@[k]@ == (if k < orig_len {
                    full[k]
                } else {
                    Seq::<u8>::empty()
                }),
        decreases 4 - fields.len(),
    {
        fields.push(Vec::new());
    }
    if fields.len() > 4 {
        fields.truncate(4);
    }
    proof {
        assert(fields@.len() == 4);
    }
    fields
}

/// Parses one complete row; `Err` is a row the grammar rejects outright.
pub fn parse_zztx_csv(opts: &ZzParseOptions, row: &[u8]) -> (r: Result<
    CsvParserResult,
    RowParseError,
>)
    ensures
        match r {
            Ok(res) => res@ == spec_parse_row(*opts, row@) && !(res@ is Failed),
            Err(_) => spec_parse_row(*opts, row@) is Failed,
        },
{
    let fields = four_fields(row);
    let t0 = if opts.dont_trim_spaces {
        fields[0].as_slice()
    } else {
        trim_slice(fields[0].as_slice())
    };
    proof {
        assert(t0@ == eff_field(*opts, row@, 0));
    }
    if t0.len() == 0 {
        return Ok(CsvParserResult::MissingRequiredField);
    }
    let kind = match match_tx_tag(t0) {
        Some(k) => k,
        None => {
            return Err(RowParseError);
        },
    };
    let t1 = if opts.dont_trim_spaces {
        fields[1].as_slice()
    } else {
        trim_slice(fields[1].as_slice())
    };
    proof {
        assert(t1@ == eff_field(*opts, row@, 1));
    }
    if t1.len() == 0 {
        return Ok(CsvParserResult::MissingRequiredField);
    }
    let client_id: u16 = match crate::parsers::text::parse_uint_bounded(t1, 65535) {
        Some(v) => v as u16,
        None => {
            return Err(RowParseError);
        },
    };
    let t2 = if opts.dont_trim_spaces {
        fields[2].as_slice()
    } else {
        trim_slice(fields[2].as_slice())
    };
    proof {
        assert(t2@ == eff_field(*opts, row@, 2));
    }
    if t2.len() == 0 {
        return Ok(CsvParserResult::MissingRequiredField);
    }
    let tx_id: u32 = match crate::parsers::text::parse_uint_bounded(t2, 0xFFFF_FFFF) {
        Some(v) => v as u32,
        None => {
            return Err(RowParseError);
        },
    };
    let t3 = if opts.dont_trim_spaces {
        fields[3].as_slice()
    } else {
        trim_slice(fields[3].as_slice())
    };
    proof {
        assert(t3@ == eff_field(*opts, row@, 3));
    }
    if t3.len() == 0 {
        let res = match kind {
            TagKind::Deposit => CsvParserResult::MissingRequiredField,
            TagKind::Withdrawal => CsvParserResult::MissingRequiredField,
            TagKind::Dispute => CsvParserResult::Parsed(
                ZzTx { tx_type: ZzTxType::Dispute, client_id, tx_id },
            ),
            TagKind::Resolve => CsvParserResult::Parsed(
                ZzTx { tx_type: ZzTxType::Resolve, client_id, tx_id },
            ),
            TagKind::Chargeback => CsvParserResult::Parsed(
                ZzTx { tx_type: ZzTxType::Chargeback, client_id, tx_id },
            ),
        };
        return Ok(res);
    }
    match scan_amount(opts, t3) {
        Ok(p) => {
            if p.1 != t3.len() {
                return Err(RowParseError);
            }
            let amount = p.0;
            let res = match kind {
                TagKind::Deposit => CsvParserResult::Parsed(
                    ZzTx { tx_type: ZzTxType::Deposit(amount), client_id, tx_id },
                ),
                TagKind::Withdrawal => CsvParserResult::Parsed(
                    ZzTx { tx_type: ZzTxType::Withdrawal(amount), client_id, tx_id },
                ),
                TagKind::Dispute => CsvParserResult::ContainsExcessiveFields(
                    ZzTx { tx_type: ZzTxType::Dispute, client_id, tx_id },
                ),
                TagKind::Resolve => CsvParserResult::ContainsExcessiveFields(
                    ZzTx { tx_type: ZzTxType::Resolve, client_id, tx_id },
                ),
                TagKind::Chargeback => CsvParserResult::ContainsExcessiveFields(
                    ZzTx { tx_type: ZzTxType::Chargeback, client_id, tx_id },
                ),
            };
            Ok(res)
        },
        Err(_) => Err(RowParseError),
    }
}

/// Whether the first physical line is a recognized header row.
pub fn parse_zztx_csv_headers(opts: &ZzParseOptions, input: &[u8]) -> (r: bool)
    ensures
        r == spec_parse_headers(*opts, input@),
{
    let fields = four_fields(input);
    let word_type: [u8; 4] = [116, 121, 112, 101];
    let word_client: [u8; 6] = [99, 108, 105, 101, 110, 116];
    let word_tx: [u8; 2] = [116, 120];
    let word_amount: [u8; 6] = [97, 109, 111, 117, 110, 116];
    proof {
        assert(word_type@ =~= tag_type());
        assert(word_client@ =~= tag_client());
        assert(word_tx@ =~= tag_tx());
        assert(word_amount@ =~= tag_amount());
    }
    let t0 = if opts.dont_trim_spaces {
        fields[0].as_slice()
    } else {
        trim_slice(fields[0].as_slice())
    };
    let t1 = if opts.dont_trim_spaces {
        fields[1].as_slice()
    } else {
        trim_slice(fields[1].as_slice())
    };
    let t2 = if opts.dont_trim_spaces {
        fields[2].as_slice()
    } else {
        trim_slice(fields[2].as_slice())
    };
    let t3 = if opts.dont_trim_spaces {
        fields[3].as_slice()
    } else {
        trim_slice(fields[3].as_slice())
    };
    proof {
        assert(t0@ == eff_field(*opts, input@, 0));
        assert(t1@ == eff_field(*opts, input@, 1));
        assert(t2@ == eff_field(*opts, input@, 2));
        assert(t3@ == eff_field(*opts, input@, 3));
    }
    (t0.len() == 0 || bytes_eq(t0, word_type.as_slice())) && (t1.len() == 0 || bytes_eq(
        t1,
        word_client.as_slice(),
    )) && (t2.len() == 0 || bytes_eq(t2, word_tx.as_slice())) && (t3.len() == 0 || bytes_eq(
        t3,
        word_amount.as_slice(),
    ))
}

/// The hand-rolled row grammar as a pluggable grammar back-end.
pub struct CsvZzTxParserNomImpl;

impl CsvZzTxParserTrait for CsvZzTxParserNomImpl {
    open spec fn spec_headers(&self, opts: ZzParseOptions, header: Seq<u8>) -> bool {
        spec_parse_headers(opts, header)
    }

    open spec fn spec_row(&self, opts: ZzParseOptions, row: Seq<u8>) -> RowOutcomeV {
        spec_parse_row(opts, row)
    }

    fn deserialize_headers(&self, opts: &ZzParseOptions, header: &[u8]) -> (r: bool) {
        parse_zztx_csv_headers(opts, header)
    }

    fn deserialize_row(&self, opts: &ZzParseOptions, row: &[u8]) -> (r: CsvParserResult) {
        match parse_zztx_csv(opts, row) {
            Ok(res) => res,
            Err(_) => CsvParserResult::Failed,
        }
    }
}

} // verus!
