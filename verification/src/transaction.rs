//! Per-transaction lifecycle and effect derivation.
//!
//! Each `(account, transaction)` pair moves through a small lifecycle; a
//! structurally valid record either advances that lifecycle and yields an
//! effect — the sole channel through which balances may change — or is
//! silently rejected.

use vstd::prelude::*;

use crate::client_balance::BalV;
use crate::client_balance::ZzClientBalance;
use crate::zz_amount::ZzUAmount;
use vstd::string::StringExecFns;

verus! {

broadcast use vstd::std_specs::hash::group_hash_axioms, vstd::hash_map::group_hash_map_axioms;

pub type ClientId = u16;

pub type TxId = u32;

/// The kinds of transaction a client can submit; only deposits and
/// withdrawals carry an amount.
#[derive(Debug, PartialEq)]
pub enum ZzTxType {
    Withdrawal(ZzUAmount),
    Deposit(ZzUAmount),
    Dispute,
    Resolve,
    Chargeback,
}

/// Spec-level image of `ZzTxType`; amounts are their scaled values.
pub enum TxTypeV {
    Withdrawal(nat),
    Deposit(nat),
    Dispute,
    Resolve,
    Chargeback,
}

impl View for ZzTxType {
    type V = TxTypeV;

    open spec fn view(&self) -> TxTypeV {
        match self {
            ZzTxType::Withdrawal(a) => TxTypeV::Withdrawal(a@),
            ZzTxType::Deposit(a) => TxTypeV::Deposit(a@),
            ZzTxType::Dispute => TxTypeV::Dispute,
            ZzTxType::Resolve => TxTypeV::Resolve,
            ZzTxType::Chargeback => TxTypeV::Chargeback,
        }
    }
}

/// One transaction record, as produced by a row grammar.
#[derive(Debug, PartialEq)]
pub struct ZzTx {
    pub tx_type: ZzTxType,
    pub client_id: ClientId,
    pub tx_id: TxId,
}

/// Spec-level image of `ZzTx`.
pub struct TxV {
    pub tx_type: TxTypeV,
    pub client_id: ClientId,
    pub tx_id: TxId,
}

impl View for ZzTx {
    type V = TxV;

    open spec fn view(&self) -> TxV {
        TxV { tx_type: self.tx_type@, client_id: self.client_id, tx_id: self.tx_id }
    }
}

/// The word naming a transaction kind on the wire.
pub open spec fn spec_kind_word(t: TxTypeV) -> Seq<char> {
    match t {
        TxTypeV::Withdrawal(_) => "withdrawal"@,
        TxTypeV::Deposit(_) => "deposit"@,
        TxTypeV::Dispute => "dispute"@,
        TxTypeV::Resolve => "resolve"@,
        TxTypeV::Chargeback => "chargeback"@,
    }
}

/// The CSV line a record writes: kind, account id and transaction id, with
/// the amount as a fourth column only for the kinds that carry one.
pub open spec fn spec_tx_csv(t: TxV) -> Seq<char> {
    let head = spec_kind_word(t.tx_type) + ","@ + crate::bignum::dec_digits(t.client_id as nat)
        + ","@ + crate::bignum::dec_digits(t.tx_id as nat);
    match t.tx_type {
        TxTypeV::Withdrawal(a) => head + ","@ + crate::zz_amount::spec_display_u(a),
        TxTypeV::Deposit(a) => head + ","@ + crate::zz_amount::spec_display_u(a),
        _ => head,
    }
}

/// A record together with its rendering as one CSV row.
pub struct ZzTxSerializeCsv(pub ZzTx);

impl ZzTxSerializeCsv {
    /// The record as one CSV row, per `spec_tx_csv`.
    pub fn display_string(&self) -> (r: String)
        ensures
            r@ == spec_tx_csv(self.0@),
    {
        let mut s = match &self.0.tx_type {
            ZzTxType::Withdrawal(_) => String::from_str("withdrawal"),
            ZzTxType::Deposit(_) => String::from_str("deposit"),
            ZzTxType::Dispute => String::from_str("dispute"),
            ZzTxType::Resolve => String::from_str("resolve"),
            ZzTxType::Chargeback => String::from_str("chargeback"),
        };
        s.append(",");
        let client_big = crate::bignum::biguint_from_u32(self.0.client_id as u32);
        let client_str = crate::bignum::biguint_to_string(&client_big);
        s.append(client_str.as_str());
        s.append(",");
        let tx_big = crate::bignum::biguint_from_u32(self.0.tx_id);
        let tx_str = crate::bignum::biguint_to_string(&tx_big);
        s.append(tx_str.as_str());
        match &self.0.tx_type {
            ZzTxType::Withdrawal(a) => {
                s.append(",");
                let amount = a.display_string();
                s.append(amount.as_str());
            },
            ZzTxType::Deposit(a) => {
                s.append(",");
                let amount = a.display_string();
                s.append(amount.as_str());
            },
            _ => {},
        }
        s
    }
}

/// The last known lifecycle stage of one `(account, transaction)` pair.
#[derive(Debug, PartialEq)]
pub enum TransactionState {
    Deposit(ZzUAmount),
    Withdrawal,
    Dispute(ZzUAmount),
    Locked,
}

/// Spec-level image of `TransactionState`.
pub enum TxStateV {
    Deposit(nat),
    Withdrawal,
    Dispute(nat),
    Locked,
}

impl View for TransactionState {
    type V = TxStateV;

    open spec fn view(&self) -> TxStateV {
        match self {
            TransactionState::Deposit(a) => TxStateV::Deposit(a@),
            TransactionState::Withdrawal => TxStateV::Withdrawal,
            TransactionState::Dispute(a) => TxStateV::Dispute(a@),
            TransactionState::Locked => TxStateV::Locked,
        }
    }
}

/// The balance mutation a valid transaction demands. `Some(true)` increases
/// the field by `amount`, `Some(false)` decreases it, `None` leaves it alone.
pub struct ZzTxEffect {
    pub amount: ZzUAmount,
    pub available: Option<bool>,
    pub held: Option<bool>,
    pub locked: bool,
}

/// Spec-level image of `ZzTxEffect`.
pub struct EffectV {
    pub amount: nat,
    pub available: Option<bool>,
    pub held: Option<bool>,
    pub locked: bool,
}

impl View for ZzTxEffect {
    type V = EffectV;

    open spec fn view(&self) -> EffectV {
        EffectV {
            amount: self.amount@,
            available: self.available,
            held: self.held,
            locked: self.locked,
        }
    }
}

/// The transaction state machine: given the pair's current lifecycle stage,
/// the incoming record, and the addressed account's available funds, decides
/// whether the record takes effect, and with what new stage and effect.
///
/// With no existing entry: a deposit always succeeds; a withdrawal succeeds
/// only against available funds at least as large (an absent balance counts
/// as zero, so it always fails); dispute, resolve and chargeback are
/// rejected. With an existing entry: only deposit–dispute, dispute–resolve
/// and dispute–chargeback advance; everything else is rejected.
pub open spec fn spec_produce_effect(
    cur: Option<TxStateV>,
    tx: TxV,
    available: Option<int>,
) -> Option<(TxStateV, EffectV)> {
    match cur {
        Some(state) => match (state, tx.tx_type) {
            (TxStateV::Deposit(a), TxTypeV::Dispute) => Some(
                (
                    TxStateV::Dispute(a),
                    EffectV { amount: a, available: Some(false), held: Some(true), locked: false },
                ),
            ),
            (TxStateV::Dispute(a), TxTypeV::Resolve) => Some(
                (
                    TxStateV::Deposit(a),
                    EffectV { amount: a, available: Some(true), held: Some(false), locked: false },
                ),
            ),
            (TxStateV::Dispute(a), TxTypeV::Chargeback) => Some(
                (
                    TxStateV::Locked,
                    EffectV { amount: a, available: None, held: Some(false), locked: true },
                ),
            ),
            _ => None,
        },
        None => match tx.tx_type {
            TxTypeV::Withdrawal(a) => if available matches Some(av) && av >= a {
                Some(
                    (
                        TxStateV::Withdrawal,
                        EffectV { amount: a, available: Some(false), held: None, locked: false },
                    ),
                )
            } else {
                None
            },
            TxTypeV::Deposit(a) => Some(
                (
                    TxStateV::Deposit(a),
                    EffectV { amount: a, available: Some(true), held: None, locked: false },
                ),
            ),
            _ => None,
        },
    }
}

/// The available funds a balance lookup offers the state machine.
pub open spec fn spec_available_of(balance: Option<BalV>) -> Option<int> {
    match balance {
        Some(b) => Some(b.available),
        None => None,
    }
}

/// Executable form of the state machine; total and side-effect free. The
/// caller commits the returned stage and applies the returned effect.
pub fn produce_effect(
    cur: Option<&TransactionState>,
    new: ZzTx,
    balance: Option<&ZzClientBalance>,
) -> (r: Option<(TransactionState, ZzTxEffect)>)
    ensures
        match r {
            Some(p) => spec_produce_effect(
                cur_view(cur),
                new@,
                spec_available_of(bal_view(balance)),
            ) matches Some(q) && q.0 == p.0@ && q.1 == p.1@,
            None => spec_produce_effect(
                cur_view(cur),
                new@,
                spec_available_of(bal_view(balance)),
            ) is None,
        },
{
    if let Some(state) = cur {
        match (state, new.tx_type) {
            (TransactionState::Deposit(a), ZzTxType::Dispute) => Some(
                (
                    TransactionState::Dispute(a.clone()),
                    ZzTxEffect {
                        amount: a.clone(),
                        available: Some(false),
                        held: Some(true),
                        locked: false,
                    },
                ),
            ),
            (TransactionState::Dispute(a), ZzTxType::Resolve) => Some(
                (
                    TransactionState::Deposit(a.clone()),
                    ZzTxEffect {
                        amount: a.clone(),
                        available: Some(true),
                        held: Some(false),
                        locked: false,
                    },
                ),
            ),
            (TransactionState::Dispute(a), ZzTxType::Chargeback) => Some(
                (
                    TransactionState::Locked,
                    ZzTxEffect {
                        amount: a.clone(),
                        available: None,
                        held: Some(false),
                        locked: true,
                    },
                ),
            ),
            _ => None,
        }
    } else {
        match new.tx_type {
            ZzTxType::Withdrawal(a) => {
                let enough = match balance {
                    Some(b) => b.available.greater_eq_than(a.clone()),
                    None => false,
                };
                if enough {
                    Some(
                        (
                            TransactionState::Withdrawal,
                            ZzTxEffect {
                                amount: a,
                                available: Some(false),
                                held: None,
                                locked: false,
                            },
                        ),
                    )
                } else {
                    None
                }
            },
            ZzTxType::Deposit(a) => Some(
                (
                    TransactionState::Deposit(a.clone()),
                    ZzTxEffect { amount: a, available: Some(true), held: None, locked: false },
                ),
            ),
            _ => None,
        }
    }
}

/// The view of an optional borrowed lifecycle stage.
pub open spec fn cur_view(cur: Option<&TransactionState>) -> Option<TxStateV> {
    match cur {
        Some(s) => Some(s@),
        None => None,
    }
}

/// The view of an optional borrowed balance.
pub open spec fn bal_view(balance: Option<&ZzClientBalance>) -> Option<BalV> {
    match balance {
        Some(b) => Some(b@),
        None => None,
    }
}

/// The dense `u64` key for an `(account, transaction)` pair.
pub open spec fn spec_pair_key(client_id: ClientId, tx_id: TxId) -> u64 {
    ((client_id as int) * 0x1_0000_0000 + (tx_id as int)) as u64
}

/// Packing an `(account, transaction)` pair into a `u64` key is injective:
/// records addressed to a different account can never reach another
/// account's entry, even for an equal transaction id.
pub proof fn lemma_pair_key_injective(c1: ClientId, t1: TxId, c2: ClientId, t2: TxId)
    ensures
        spec_pair_key(c1, t1) == spec_pair_key(c2, t2) ==> c1 == c2 && t1 == t2,
{
    assert(spec_pair_key(c1, t1) == spec_pair_key(c2, t2) ==> c1 == c2 && t1 == t2) by (nonlinear_arith);
}

/// What one record does to the entry map: if the state machine accepts it,
/// the new stage is committed under the pair's key and the effect handed
/// back; otherwise the map is unchanged and there is no effect.
pub open spec fn spec_insert_transaction(
    m: Map<u64, TxStateV>,
    tx: TxV,
    available: Option<int>,
) -> (Map<u64, TxStateV>, Option<EffectV>) {
    let key = spec_pair_key(tx.client_id, tx.tx_id);
    let cur = if m.contains_key(key) {
        Some(m[key])
    } else {
        None
    };
    match spec_produce_effect(cur, tx, available) {
        Some(p) => (m.insert(key, p.0), Some(p.1)),
        None => (m, None),
    }
}

/// Entries are never deleted: history must persist for later disputes, so
/// a step can only add to or overwrite the entry map, never shrink it.
pub proof fn lemma_entries_never_deleted(
    m: Map<u64, TxStateV>,
    tx: TxV,
    available: Option<int>,
)
    ensures
        forall|k: u64|
            m.contains_key(k) ==> #[trigger] spec_insert_transaction(
                m,
                tx,
                available,
            ).0.contains_key(k),
{
}

/// Bookkeeping of every `(account, transaction)` pair ever accepted.
pub trait TransactionMap: Sized {
    /// The recorded lifecycle stages, keyed by the packed pair key.
    spec fn entries(&self) -> Map<u64, TxStateV>;

    /// Routes one record through the state machine against the given balance,
    /// committing the new stage and returning the effect when it is accepted.
    fn insert_transaction(
        &mut self,
        transaction: ZzTx,
        balance: Option<&ZzClientBalance>,
    ) -> (r: Option<ZzTxEffect>)
        ensures
            ({
                let step = spec_insert_transaction(
                    old(self).entries(),
                    transaction@,
                    spec_available_of(bal_view(balance)),
                );
                final(self).entries() == step.0 && match r {
                    Some(e) => step.1 matches Some(ev) && ev == e@,
                    None => step.1 is None,
                }
            }),
    ;
}

/// A withdrawal never succeeds when the available funds are below its
/// amount — an absent balance counts as no funds — and a successful
/// withdrawal decreases `available` by exactly its amount and leaves `held`
/// untouched.
pub proof fn lemma_withdrawal_guard(
    cur: Option<TxStateV>,
    tx: TxV,
    balance: Option<BalV>,
    a: nat,
)
    requires
        tx.tx_type == TxTypeV::Withdrawal(a),
    ensures
        (match balance {
            Some(b) => b.available < a,
            None => true,
        }) ==> spec_produce_effect(cur, tx, spec_available_of(balance)) is None,
        spec_produce_effect(cur, tx, spec_available_of(balance)) matches Some(p) ==> {
            &&& balance matches Some(b) && b.available >= a
            &&& crate::client_balance::spec_apply_effect(balance.unwrap(), p.1).available
                == balance.unwrap().available - a
            &&& crate::client_balance::spec_apply_effect(balance.unwrap(), p.1).held
                == balance.unwrap().held
        },
{
}

/// Disputing a deposited amount and then resolving the dispute returns
/// `available` and `held` to their pre-dispute values exactly, and returns
/// the entry to its deposited stage.
pub proof fn lemma_dispute_resolve_restores(b: BalV, a: nat, tx1: TxV, tx2: TxV)
    requires
        tx1.tx_type == TxTypeV::Dispute,
        tx2.tx_type == TxTypeV::Resolve,
    ensures
        ({
            let s1 = spec_produce_effect(Some(TxStateV::Deposit(a)), tx1, Some(b.available));
            s1 matches Some(p1) && {
                let b1 = crate::client_balance::spec_apply_effect(b, p1.1);
                let s2 = spec_produce_effect(Some(p1.0), tx2, Some(b1.available));
                s2 matches Some(p2) && {
                    let b2 = crate::client_balance::spec_apply_effect(b1, p2.1);
                    &&& b2.available == b.available
                    &&& b2.held == b.held
                    &&& b2.locked == b.locked
                    &&& p2.0 == TxStateV::Deposit(a)
                }
            }
        }),
{
}

/// A chargeback of a disputed amount leaves `available` untouched, decreases
/// `held` by exactly the disputed amount, locks the account, and moves the
/// entry to its final locked stage.
pub proof fn lemma_dispute_chargeback(b: BalV, a: nat, tx: TxV)
    requires
        tx.tx_type == TxTypeV::Chargeback,
    ensures
        ({
            let s = spec_produce_effect(Some(TxStateV::Dispute(a)), tx, Some(b.available));
            s matches Some(p) && {
                let b1 = crate::client_balance::spec_apply_effect(b, p.1);
                &&& b1.available == b.available
                &&& b1.held == b.held - a
                &&& b1.locked
                &&& p.0 == TxStateV::Locked
            }
        }),
{
}

/// A locked entry is final: no record of any kind advances it or produces an
/// effect through it.
pub proof fn lemma_locked_entry_rejects_all(tx: TxV, available: Option<int>)
    ensures
        spec_produce_effect(Some(TxStateV::Locked), tx, available) is None,
{
}

/// A dispute, resolve or chargeback whose transaction id only matches an
/// entry recorded under a different account finds no entry of its own and is
/// rejected: the map and the balances stay untouched.
pub proof fn lemma_mismatched_account_rejected(
    m: Map<u64, TxStateV>,
    tx: TxV,
    available: Option<int>,
    c1: ClientId,
)
    requires
        tx.tx_type == TxTypeV::Dispute || tx.tx_type == TxTypeV::Resolve || tx.tx_type
            == TxTypeV::Chargeback,
        c1 != tx.client_id,
        forall|c: ClientId| #[trigger] m.contains_key(spec_pair_key(c, tx.tx_id)) ==> c == c1,
    ensures
        spec_insert_transaction(m, tx, available) == (m, Option::<EffectV>::None),
{
    assert(!m.contains_key(spec_pair_key(tx.client_id, tx.tx_id)));
}

/// The transaction map, backed by a hash table over the packed pair key.
pub struct TransactionHashMapImpl {
    map: vstd::hash_map::HashMapWithView<u64, TransactionState>,
}

impl TransactionHashMapImpl {
    /// An empty transaction map.
    pub fn new() -> (r: Self)
        ensures
            r.entries() == Map::<u64, TxStateV>::empty(),
    {
        let r = TransactionHashMapImpl { map: vstd::hash_map::HashMapWithView::new() };
        proof {
            assert(r.entries() =~= Map::<u64, TxStateV>::empty());
        }
        r
    }
}

impl TransactionHashMapImpl {
    /// Whether an entry is recorded under exactly this `(account,
    /// transaction)` pair.
    pub fn contains_pair(&self, client_id: ClientId, tx_id: TxId) -> (r: bool)
        ensures
            r == self.entries().contains_key(spec_pair_key(client_id, tx_id)),
    {
        let key: u64 = (client_id as u64) * 0x1_0000_0000 + (tx_id as u64);
        self.map.contains_key(&key)
    }
}

impl Default for TransactionHashMapImpl {
    fn default() -> (r: Self)
        ensures
            r.entries() == Map::<u64, TxStateV>::empty(),
    {
        TransactionHashMapImpl::new()
    }
}

impl TransactionMap for TransactionHashMapImpl {
    closed spec fn entries(&self) -> Map<u64, TxStateV> {
        self.map@.map_values(|s: TransactionState| s@)
    }

    fn insert_transaction(
        &mut self,
        transaction: ZzTx,
        balance: Option<&ZzClientBalance>,
    ) -> (r: Option<ZzTxEffect>)
    {
        let ghost txv = transaction@;
        let client_id = transaction.client_id;
        let tx_id = transaction.tx_id;
        let key: u64 = (client_id as u64) * 0x1_0000_0000 + (tx_id as u64);
        assert(key == spec_pair_key(txv.client_id, txv.tx_id));
        let cur = self.map.get(&key);
        match produce_effect(cur, transaction, balance) {
            Some((state, effect)) => {
                let ghost sv = state@;
                self.map.insert(key, state);
                proof {
                    assert(self.entries() =~= old(self).entries().insert(key, sv));
                }
                Some(effect)
            },
            None => None,
        }
    }
}

} // verus!
