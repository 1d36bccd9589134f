//! The row-grammar contract and the streaming ingestion pipeline.

use vstd::prelude::*;

use crate::ParsingStrictnessOptions;
use crate::ZzParseOptions;
use crate::client_balance::BalV;
use crate::client_balance::ZzClientBalance;
use crate::client_balance::spec_apply_effect;
use crate::client_balance::spec_fresh_balance;
use crate::parsers::text::seqs_of;
use crate::parsers::text::split_bytes;
use crate::parsers::text::split_on;
use crate::transaction::TransactionHashMapImpl;
use crate::transaction::TransactionMap;
use crate::transaction::TxStateV;
use crate::transaction::TxV;
use crate::transaction::ZzTx;
use crate::transaction::bal_view;
use crate::transaction::spec_available_of;
use crate::transaction::spec_insert_transaction;

verus! {

/// What a grammar makes of one complete row.
#[derive(Debug, PartialEq)]
pub enum CsvParserResult {
    /// A well-formed record.
    Parsed(ZzTx),
    /// The row does not fit the grammar at all.
    Failed,
    /// The row lacks a required positional column for its kind.
    MissingRequiredField,
    /// The row carries an amount its kind must not have; the best-effort
    /// record is kept so a lenient policy can still use it.
    ContainsExcessiveFields(ZzTx),
}

/// Spec-level image of `CsvParserResult`.
pub enum RowOutcomeV {
    Parsed(TxV),
    Failed,
    MissingRequiredField,
    ContainsExcessiveFields(TxV),
}

impl View for CsvParserResult {
    type V = RowOutcomeV;

    open spec fn view(&self) -> RowOutcomeV {
        match self {
            CsvParserResult::Parsed(tx) => RowOutcomeV::Parsed(tx@),
            CsvParserResult::Failed => RowOutcomeV::Failed,
            CsvParserResult::MissingRequiredField => RowOutcomeV::MissingRequiredField,
            CsvParserResult::ContainsExcessiveFields(tx) => RowOutcomeV::ContainsExcessiveFields(
                tx@,
            ),
        }
    }
}

/// The contract a row grammar satisfies: each implementation names, as spec
/// functions, what it makes of a header line and of a complete row, and its
/// executable entry points return exactly that.
pub trait CsvZzTxParserTrait: Sized {
    /// Whether the grammar recognizes this line as its header row.
    spec fn spec_headers(&self, opts: ZzParseOptions, header: Seq<u8>) -> bool;

    /// The outcome the grammar gives one complete row.
    spec fn spec_row(&self, opts: ZzParseOptions, row: Seq<u8>) -> RowOutcomeV;

    /// Decides whether the first physical line is a header to be skipped.
    fn deserialize_headers(&self, opts: &ZzParseOptions, header: &[u8]) -> (r: bool)
        ensures
            r == self.spec_headers(*opts, header@),
    ;

    /// Parses one complete row.
    fn deserialize_row(&self, opts: &ZzParseOptions, row: &[u8]) -> (r: CsvParserResult)
        ensures
            r@ == self.spec_row(*opts, row@),
    ;
}

/// Why a run aborted. Any of these is fatal: no partial output is valid.
#[derive(Clone, Copy, Debug, PartialEq, Eq, Structural)]
pub enum ZzCsvError {
    /// A row, or the unterminated final row, exceeds the configured maximum
    /// width; such a row risks unbounded memory growth.
    RowTooBig,
    /// A malformed row met a policy configured as `Fail`.
    RowRejected,
    /// An effect addressed an already locked account; the lock is an
    /// ironclad invariant, so this aborts the run.
    LockedAccountMutation,
}

/// The number of slots in the dense per-account table: the whole 16-bit
/// account-id space.
pub open spec fn account_slots() -> int {
    0x10000
}

/// The views of the account table's slots.
pub open spec fn balances_view(b: Seq<Option<ZzClientBalance>>) -> Seq<Option<BalV>> {
    b.map_values(
        |o: Option<ZzClientBalance>|
            match o {
                Some(x) => Some(x@),
                None => None,
            },
    )
}

/// The account table is full sized and each used slot holds its own account.
pub open spec fn balances_wf(b: Seq<Option<BalV>>) -> bool {
    &&& b.len() == account_slots()
    &&& forall|i: int|
        0 <= i < b.len() ==> ((#[trigger] b[i]) matches Some(x) ==> x.client_id == i)
}

/// The pipeline's bookkeeping between rows: whether the first logical row is
/// still owed its header check, the per-pair entry map, and the account
/// table.
pub struct CoreV {
    pub awaiting_header: bool,
    pub entries: Map<u64, TxStateV>,
    pub balances: Seq<Option<BalV>>,
}

/// The whole pipeline state: the bookkeeping plus the unterminated partial
/// row carried from one chunk into the next.
pub struct PipeStateV {
    pub core: CoreV,
    pub tail: Seq<u8>,
}

/// What one accepted record does to the entry map and the account table:
/// the state machine decides; an accepted effect lazily creates the target
/// account and mutates it, unless the account is locked, which is fatal.
pub open spec fn spec_step_tx(
    entries: Map<u64, TxStateV>,
    balances: Seq<Option<BalV>>,
    tx: TxV,
) -> Result<(Map<u64, TxStateV>, Seq<Option<BalV>>), ZzCsvError> {
    let ci = tx.client_id as int;
    let step = spec_insert_transaction(entries, tx, spec_available_of(balances[ci]));
    match step.1 {
        None => Ok((entries, balances)),
        Some(e) => {
            let b0 = match balances[ci] {
                Some(b) => b,
                None => spec_fresh_balance(tx.client_id),
            };
            if b0.locked {
                Err(ZzCsvError::LockedAccountMutation)
            } else {
                Ok((step.0, balances.update(ci, Some(spec_apply_effect(b0, e)))))
            }
        },
    }
}

/// Policy dispatch for one complete row: a parsed record is routed to the
/// state machine; a missing field, an excess amount or a grammar failure is
/// fatal, used best-effort, or dropped, as its policy says.
pub open spec fn spec_dispatch<P: CsvZzTxParserTrait>(
    p: P,
    opts: ZzParseOptions,
    c: CoreV,
    row: Seq<u8>,
) -> Result<CoreV, ZzCsvError> {
    match p.spec_row(opts, row) {
        RowOutcomeV::Parsed(tx) => spec_step_tx_core(c, tx),
        RowOutcomeV::MissingRequiredField => if opts.on_missing_field is Fail {
            Err(ZzCsvError::RowRejected)
        } else {
            Ok(c)
        },
        RowOutcomeV::ContainsExcessiveFields(tx) => match opts.on_excessive_field {
            ParsingStrictnessOptions::Fail => Err(ZzCsvError::RowRejected),
            ParsingStrictnessOptions::Allow => spec_step_tx_core(c, tx),
            ParsingStrictnessOptions::Ignore => Ok(c),
        },
        RowOutcomeV::Failed => if opts.on_parse_error is Fail {
            Err(ZzCsvError::RowRejected)
        } else {
            Ok(c)
        },
    }
}

/// `spec_step_tx`, lifted to the pipeline's bookkeeping.
pub open spec fn spec_step_tx_core(c: CoreV, tx: TxV) -> Result<CoreV, ZzCsvError> {
    match spec_step_tx(c.entries, c.balances, tx) {
        Ok(p) => Ok(CoreV { awaiting_header: c.awaiting_header, entries: p.0, balances: p.1 }),
        Err(e) => Err(e),
    }
}

/// One complete row into the pipeline: an oversized row is fatal; the first
/// logical row is consumed silently when it is a recognized header,
/// otherwise it is a data row like any other.
pub open spec fn spec_row_into<P: CsvZzTxParserTrait>(
    p: P,
    opts: ZzParseOptions,
    c: CoreV,
    row: Seq<u8>,
) -> Result<CoreV, ZzCsvError> {
    if row.len() > opts.max_line_width {
        Err(ZzCsvError::RowTooBig)
    } else if c.awaiting_header {
        let c1 = CoreV { awaiting_header: false, entries: c.entries, balances: c.balances };
        if p.spec_headers(opts, row) {
            Ok(c1)
        } else {
            spec_dispatch(p, opts, c1, row)
        }
    } else {
        spec_dispatch(p, opts, c, row)
    }
}

/// A run of complete rows into the pipeline, in order, stopping at the
/// first fatal condition.
pub open spec fn spec_feed_rows<P: CsvZzTxParserTrait>(
    p: P,
    opts: ZzParseOptions,
    c: CoreV,
    rows: Seq<Seq<u8>>,
) -> Result<CoreV, ZzCsvError>
    decreases rows.len(),
{
    if rows.len() == 0 {
        Ok(c)
    } else {
        match spec_row_into(p, opts, c, rows[0]) {
            Ok(c1) => spec_feed_rows(p, opts, c1, rows.drop_first()),
            Err(e) => Err(e),
        }
    }
}

/// One chunk into the pipeline: the chunk continues the carried partial
/// row; everything up to the last row terminator is complete rows, fed in
/// order; what follows it is the new partial row, which must stay within
/// the configured width.
pub open spec fn spec_push_chunk<P: CsvZzTxParserTrait>(
    p: P,
    opts: ZzParseOptions,
    st: PipeStateV,
    chunk: Seq<u8>,
) -> Result<PipeStateV, ZzCsvError> {
    let data = st.tail + chunk;
    let parts = split_on(data, 10);
    let rows = parts.drop_last();
    let rest = parts.last();
    match spec_feed_rows(p, opts, st.core, rows) {
        Ok(c1) => if rest.len() > opts.max_line_width {
            Err(ZzCsvError::RowTooBig)
        } else {
            Ok(PipeStateV { core: c1, tail: rest })
        },
        Err(e) => Err(e),
    }
}

/// The derived `total` of every used slot, recomputed once at the end.
pub open spec fn spec_finalize(balances: Seq<Option<BalV>>) -> Seq<Option<BalV>> {
    balances.map_values(
        |o: Option<BalV>|
            match o {
                Some(b) => Some(
                    BalV {
                        client_id: b.client_id,
                        available: b.available,
                        held: b.held,
                        total: b.available + b.held,
                        locked: b.locked,
                    },
                ),
                None => None,
            },
    )
}

/// After the final recomputation every used slot's total is exactly its
/// available plus held funds.
pub proof fn lemma_finalize_totals(balances: Seq<Option<BalV>>)
    ensures
        forall|i: int|
            0 <= i < balances.len() ==> match #[trigger] spec_finalize(balances)[i] {
                Some(b) => b.total == b.available + b.held,
                None => true,
            },
{
}

/// End of stream: the remaining partial row, if any, is processed as a
/// final row through the same dispatch, and every account's total is
/// recomputed.
pub open spec fn spec_finish<P: CsvZzTxParserTrait>(
    p: P,
    opts: ZzParseOptions,
    st: PipeStateV,
) -> Result<Seq<Option<BalV>>, ZzCsvError> {
    if st.tail.len() == 0 {
        Ok(spec_finalize(st.core.balances))
    } else {
        match spec_row_into(p, opts, st.core, st.tail) {
            Ok(c1) => Ok(spec_finalize(c1.balances)),
            Err(e) => Err(e),
        }
    }
}

/// The pipeline state before any input.
pub open spec fn spec_initial_core() -> CoreV {
    CoreV {
        awaiting_header: true,
        entries: Map::empty(),
        balances: Seq::new(account_slots() as nat, |i: int| None),
    }
}

/// A whole run: every chunk in order, then end of stream.
pub open spec fn spec_run_chunks<P: CsvZzTxParserTrait>(
    p: P,
    opts: ZzParseOptions,
    st: PipeStateV,
    chunks: Seq<Seq<u8>>,
) -> Result<PipeStateV, ZzCsvError>
    decreases chunks.len(),
{
    if chunks.len() == 0 {
        Ok(st)
    } else {
        match spec_push_chunk(p, opts, st, chunks[0]) {
            Ok(st1) => spec_run_chunks(p, opts, st1, chunks.drop_first()),
            Err(e) => Err(e),
        }
    }
}

/// The balance table a whole run produces from the given chunks.
pub open spec fn spec_streaming_run<P: CsvZzTxParserTrait>(
    p: P,
    opts: ZzParseOptions,
    chunks: Seq<Seq<u8>>,
) -> Result<Seq<Option<BalV>>, ZzCsvError> {
    let st0 = PipeStateV { core: spec_initial_core(), tail: Seq::empty() };
    match spec_run_chunks(p, opts, st0, chunks) {
        Ok(st) => spec_finish(p, opts, st),
        Err(e) => Err(e),
    }
}

/// Once an account is locked, no record can change anything through it: the
/// step either aborts the run or leaves the entry map and every account,
/// the locked one included, exactly as they were.
pub proof fn lemma_locked_account_frozen(
    entries: Map<u64, TxStateV>,
    balances: Seq<Option<BalV>>,
    tx: TxV,
)
    requires
        balances[tx.client_id as int] matches Some(b) && b.locked,
    ensures
        match spec_step_tx(entries, balances, tx) {
            Ok(p) => p.0 == entries && p.1 == balances,
            Err(e) => e == ZzCsvError::LockedAccountMutation,
        },
{
}

/// A step only ever touches the account the record addresses: every other
/// slot of the table is left exactly as it was.
pub proof fn lemma_step_tx_targets_only(
    entries: Map<u64, TxStateV>,
    balances: Seq<Option<BalV>>,
    tx: TxV,
)
    requires
        (tx.client_id as int) < balances.len(),
    ensures
        spec_step_tx(entries, balances, tx) matches Ok(p) ==> forall|j: int|
            0 <= j < balances.len() && j != tx.client_id as int ==> p.1[j] == balances[j],
{
}

/// The streaming ingestion pipeline: feed it chunks of bytes as they were
/// read, in order, then finish it to obtain the balance table. It owns the
/// carried partial row, the entry map and the account table for the whole
/// run.
pub struct CsvStreamProcessor<P: CsvZzTxParserTrait> {
    parser: P,
    opts: ZzParseOptions,
    awaiting_header: bool,
    tail: Vec<u8>,
    tx_map: TransactionHashMapImpl,
    balances: Vec<Option<ZzClientBalance>>,
}

impl<P: CsvZzTxParserTrait> View for CsvStreamProcessor<P> {
    type V = PipeStateV;

    closed spec fn view(&self) -> PipeStateV {
        PipeStateV {
            core: CoreV {
                awaiting_header: self.awaiting_header,
                entries: self.tx_map.entries(),
                balances: balances_view(self.balances@),
            },
            tail: self.tail@,
        }
    }
}

impl<P: CsvZzTxParserTrait> CsvStreamProcessor<P> {
    /// The grammar back-end this processor was built with.
    pub closed spec fn spec_parser(&self) -> P {
        self.parser
    }

    /// The options this processor was built with.
    pub closed spec fn spec_opts(&self) -> ZzParseOptions {
        self.opts
    }

    /// The account table is full sized and each used slot holds its own
    /// account.
    pub open spec fn wf(&self) -> bool {
        balances_wf(self@.core.balances)
    }

    /// A fresh pipeline: awaiting the header decision, no carried partial
    /// row, no entries, an empty account table.
    pub fn new(parser: P, opts: ZzParseOptions) -> (r: Self)
        ensures
            r@ == (PipeStateV { core: spec_initial_core(), tail: Seq::<u8>::empty() }),
            r.wf(),
            r.spec_parser() == parser,
            r.spec_opts() == opts,
    {
        let mut balances: Vec<Option<ZzClientBalance>> = Vec::new();
        let mut i: usize = 0;
        while i < 0x10000
            invariant
                i <= 0x10000,
                balances@.len() == i,
                forall|k: int| 0 <= k < i ==> balances@[k] is None,
            decreases 0x10000 - i,
        {
            balances.push(None);
            i += 1;
        }
        let r = CsvStreamProcessor {
            parser,
            opts,
            awaiting_header: true,
            tail: Vec::new(),
            tx_map: TransactionHashMapImpl::new(),
            balances,
        };
        proof {
            assert(balances_view(r.balances@) =~= spec_initial_core().balances);
            assert(r@.core.entries =~= spec_initial_core().entries);
            assert(r@ == (PipeStateV { core: spec_initial_core(), tail: Seq::<u8>::empty() }));
        }
        r
    }

    /// Routes one accepted record through the state machine and applies any
    /// effect to the addressed account, creating it lazily; touching a
    /// locked account is fatal.
    fn apply_tx(&mut self, tx: ZzTx) -> (r: Result<(), ZzCsvError>)
        requires
            old(self).wf(),
        ensures
            final(self).wf(),
            final(self).spec_parser() == old(self).spec_parser(),
            final(self).spec_opts() == old(self).spec_opts(),
            final(self)@.core.awaiting_header == old(self)@.core.awaiting_header,
            final(self)@.tail == old(self)@.tail,
            match r {
                Ok(()) => spec_step_tx(old(self)@.core.entries, old(self)@.core.balances, tx@)
                    == Ok::<_, ZzCsvError>(
                    (final(self)@.core.entries, final(self)@.core.balances),
                ),
                Err(e) => spec_step_tx(old(self)@.core.entries, old(self)@.core.balances, tx@)
                    == Err::<(Map<u64, TxStateV>, Seq<Option<BalV>>), _>(e),
            },
    {
        let ghost txv = tx@;
        let ghost entries0 = self@.core.entries;
        let ghost balances0 = self@.core.balances;
        let client_id = tx.client_id;
        let ci = client_id as usize;
        proof {
            assert(balances_view(self.balances@).len() == self.balances@.len());
        }
        let balance_ref: Option<&ZzClientBalance> = match &self.balances[ci] {
            Some(b) => Some(b),
            None => None,
        };
        proof {
            assert(bal_view(balance_ref) == balances0[ci as int]);
        }
        let effect_opt = self.tx_map.insert_transaction(tx, balance_ref);
        match effect_opt {
            None => {
                proof {
                    assert(self@.core.balances =~= balances0);
                }
                Ok(())
            },
            Some(effect) => {
                let mut b = match &self.balances[ci] {
                    Some(x) => x.clone(),
                    None => ZzClientBalance::new_zero(client_id),
                };
                if b.locked {
                    return Err(ZzCsvError::LockedAccountMutation);
                }
                b.process_tx_effect(effect);
                self.balances[ci] = Some(b);
                proof {
                    let stepped = spec_step_tx(entries0, balances0, txv);
                    assert(self@.core.balances =~= stepped.unwrap().1);
                }
                Ok(())
            },
        }
    }

    /// One complete row into the pipeline: size check, the header decision
    /// on the first logical row, then policy dispatch.
    fn handle_row(&mut self, row: &[u8]) -> (r: Result<(), ZzCsvError>)
        requires
            old(self).wf(),
        ensures
            final(self).wf(),
            final(self).spec_parser() == old(self).spec_parser(),
            final(self).spec_opts() == old(self).spec_opts(),
            final(self)@.tail == old(self)@.tail,
            match r {
                Ok(()) => spec_row_into(
                    old(self).spec_parser(),
                    old(self).spec_opts(),
                    old(self)@.core,
                    row@,
                ) == Ok::<_, ZzCsvError>(final(self)@.core),
                Err(e) => spec_row_into(
                    old(self).spec_parser(),
                    old(self).spec_opts(),
                    old(self)@.core,
                    row@,
                ) == Err::<CoreV, _>(e),
            },
    {
        if row.len() > self.opts.max_line_width {
            return Err(ZzCsvError::RowTooBig);
        }
        if self.awaiting_header {
            let is_header = self.parser.deserialize_headers(&self.opts, row);
            self.awaiting_header = false;
            if is_header {
                return Ok(());
            }
        }
        match self.parser.deserialize_row(&self.opts, row) {
            CsvParserResult::Parsed(tx) => self.apply_tx(tx),
            CsvParserResult::MissingRequiredField => {
                if self.opts.on_missing_field.fail() {
                    Err(ZzCsvError::RowRejected)
                } else {
                    Ok(())
                }
            },
            CsvParserResult::ContainsExcessiveFields(tx) => {
                match self.opts.on_excessive_field {
                    ParsingStrictnessOptions::Fail => Err(ZzCsvError::RowRejected),
                    ParsingStrictnessOptions::Allow => self.apply_tx(tx),
                    ParsingStrictnessOptions::Ignore => Ok(()),
                }
            },
            CsvParserResult::Failed => {
                if self.opts.on_parse_error.fail() {
                    Err(ZzCsvError::RowRejected)
                } else {
                    Ok(())
                }
            },
        }
    }

    /// Feeds one chunk of bytes, exactly as it was read, into the pipeline.
    #[verifier::loop_isolation(false)]
    pub fn push_chunk(&mut self, chunk: &[u8]) -> (r: Result<(), ZzCsvError>)
        requires
            old(self).wf(),
        ensures
            final(self).wf(),
            final(self).spec_parser() == old(self).spec_parser(),
            final(self).spec_opts() == old(self).spec_opts(),
            match r {
                Ok(()) => spec_push_chunk(
                    old(self).spec_parser(),
                    old(self).spec_opts(),
                    old(self)@,
                    chunk@,
                ) == Ok::<_, ZzCsvError>(final(self)@),
                Err(e) => spec_push_chunk(
                    old(self).spec_parser(),
                    old(self).spec_opts(),
                    old(self)@,
                    chunk@,
                ) == Err::<PipeStateV, _>(e),
            },
    {
        let ghost p = self.spec_parser();
        let ghost opts = self.spec_opts();
        let ghost st0 = self@;
        let mut data = vstd::slice::slice_to_vec(self.tail.as_slice());
        let mut chunk_vec = vstd::slice::slice_to_vec(chunk);
        data.append(&mut chunk_vec);
        proof {
            assert(data@ == st0.tail + chunk@);
        }
        let mut parts = split_bytes(data.as_slice(), 10);
        let ghost all_parts = split_on(data@, 10);
        proof {
            assert(all_parts.len() >= 1);
        }
        let rest = match parts.pop() {
            Some(v) => v,
            None => {
                proof {
                    assert(false);
                }
                Vec::new()
            },
        };
        let ghost rows = all_parts.drop_last();
        proof {
            assert(seqs_of(parts@) =~= rows);
            assert(rest@ == all_parts.last());
            assert(rows.skip(0) =~= rows);
        }
        let n = parts.len();
        let mut k: usize = 0;
        while k < n
            invariant
                k <= n,
                n == parts@.len(),
                seqs_of(parts@) =~= rows,
                self.wf(),
                self.spec_parser() == p,
                self.spec_opts() == opts,
                spec_feed_rows(p, opts, st0.core, rows) == spec_feed_rows(
                    p,
                    opts,
                    self@.core,
                    rows.skip(k as int),
                ),
            decreases n - k,
        {
            let ghost pre = self@.core;
            let row = parts[k].as_slice();
            proof {
                assert(rows.len() == n);
                assert(rows.skip(k as int).len() > 0);
                assert(rows.skip(k as int)[0] == rows[k as int]);
                assert(seqs_of(parts@)[k as int] == parts@[k as int]@);
                assert(row@ == rows[k as int]);
            }
            match self.handle_row(row) {
                Ok(()) => {
                    proof {
                        assert(rows.skip(k as int).drop_first() =~= rows.skip(k as int + 1));
                    }
                },
                Err(e) => {
                    proof {
                        assert(spec_feed_rows(p, opts, st0.core, rows) == Err::<CoreV, _>(e));
                    }
                    return Err(e);
                },
            }
            k += 1;
        }
        proof {
            assert(rows.skip(n as int) =~= Seq::<Seq<u8>>::empty());
            assert(spec_feed_rows(p, opts, st0.core, rows) == Ok::<_, ZzCsvError>(self@.core));
        }
        if rest.len() > self.opts.max_line_width {
            return Err(ZzCsvError::RowTooBig);
        }
        self.tail = rest;
        proof {
            assert(spec_push_chunk(p, opts, st0, chunk@) == Ok::<_, ZzCsvError>(self@));
        }
        Ok(())
    }

    /// Ends the stream: the remaining partial row, if any, goes through the
    /// same dispatch, every account's total is recomputed, and the balance
    /// table is handed back.
    pub fn finish(self) -> (r: Result<Vec<Option<ZzClientBalance>>, ZzCsvError>)
        requires
            self.wf(),
        ensures
            match r {
                Ok(v) => spec_finish(self.spec_parser(), self.spec_opts(), self@) == Ok::<
                    _,
                    ZzCsvError,
                >(balances_view(v@)) && balances_wf(balances_view(v@)),
                Err(e) => spec_finish(self.spec_parser(), self.spec_opts(), self@) == Err::<
                    Seq<Option<BalV>>,
                    _,
                >(e),
            },
    {
        let ghost p = self.spec_parser();
        let ghost opts = self.spec_opts();
        let ghost st0 = self@;
        let mut this = self;
        if this.tail.len() > 0 {
            let t = vstd::slice::slice_to_vec(this.tail.as_slice());
            match this.handle_row(t.as_slice()) {
                Ok(()) => {},
                Err(e) => {
                    return Err(e);
                },
            }
        }
        let ghost pre = this@.core.balances;
        let n = this.balances.len();
        proof {
            assert(balances_view(this.balances@).len() == this.balances@.len());
        }
        let mut k: usize = 0;
        while k < n
            invariant
                k <= n,
                n == this.balances@.len(),
                n == pre.len(),
                forall|i: int|
                    0 <= i < n ==> #[trigger] balances_view(this.balances@)[i] == (if i < k {
                        spec_finalize(pre)[i]
                    } else {
                        pre[i]
                    }),
            decreases n - k,
        {
            let ghost before = this.balances@;
            let upd = match &this.balances[k] {
                Some(b) => {
                    let mut c = b.clone();
                    c.compute_total();
                    Some(c)
                },
                None => None,
            };
            let ghost updv: Option<BalV> = match &upd {
                Some(x) => Some(x@),
                None => None,
            };
            proof {
                assert(balances_view(before)[k as int] == pre[k as int]);
                assert(updv == spec_finalize(pre)[k as int]);
            }
            this.balances[k] = upd;
            proof {
                assert(this.balances@ == before.update(k as int, upd));
                assert forall|i: int| 0 <= i < n implies #[trigger] balances_view(this.balances@)[i]
                    == (if i < k + 1 {
                    spec_finalize(pre)[i]
                } else {
                    pre[i]
                }) by {
                    if i != k as int {
                        assert(balances_view(this.balances@)[i] == balances_view(before)[i]);
                    }
                }
            }
            k += 1;
        }
        proof {
            assert(balances_view(this.balances@) =~= spec_finalize(pre));
        }
        Ok(this.balances)
    }
}

/// Drives a whole run over chunks that were read in order: builds a fresh
/// pipeline, feeds every chunk, and finishes.
#[verifier::loop_isolation(false)]
pub fn csv_zztx_parser_streaming<P: CsvZzTxParserTrait>(
    parser: P,
    chunks: &Vec<Vec<u8>>,
    parse_options: &ZzParseOptions,
) -> (r: Result<Vec<Option<ZzClientBalance>>, ZzCsvError>)
    ensures
        match r {
            Ok(v) => spec_streaming_run(parser, *parse_options, seqs_of(chunks@)) == Ok::<
                _,
                ZzCsvError,
            >(balances_view(v@)) && balances_wf(balances_view(v@)),
            Err(e) => spec_streaming_run(parser, *parse_options, seqs_of(chunks@)) == Err::<
                Seq<Option<BalV>>,
                _,
            >(e),
        },
{
    let ghost chunksv = seqs_of(chunks@);
    let ghost st0 = PipeStateV { core: spec_initial_core(), tail: Seq::<u8>::empty() };
    let mut processor = CsvStreamProcessor::new(parser, *parse_options);
    proof {
        assert(chunksv.skip(0) =~= chunksv);
    }
    let n = chunks.len();
    let mut k: usize = 0;
    while k < n
        invariant
            k <= n,
            n == chunks@.len(),
            chunksv == seqs_of(chunks@),
            processor.wf(),
            processor.spec_parser() == parser,
            processor.spec_opts() == *parse_options,
            spec_run_chunks(parser, *parse_options, st0, chunksv) == spec_run_chunks(
                parser,
                *parse_options,
                processor@,
                chunksv.skip(k as int),
            ),
        decreases n - k,
    {
        proof {
            assert(chunksv.len() == n);
            assert(chunksv.skip(k as int).len() > 0);
            assert(chunksv.skip(k as int)[0] == chunksv[k as int]);
            assert(seqs_of(chunks@)[k as int] == chunks@[k as int]@);
        }
        match processor.push_chunk(chunks[k].as_slice()) {
            Ok(()) => {
                proof {
                    assert(chunksv.skip(k as int).drop_first() =~= chunksv.skip(k as int + 1));
                }
            },
            Err(e) => {
                return Err(e);
            },
        }
        k += 1;
    }
    proof {
        assert(chunksv.skip(n as int) =~= Seq::<Seq<u8>>::empty());
    }
    processor.finish()
}

} // verus!
