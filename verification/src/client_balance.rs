//! Per-account balance record and effect application.

use vstd::prelude::*;

use crate::transaction::EffectV;
use crate::transaction::ZzTxEffect;
use crate::zz_amount::ZzIAmount;

verus! {

/// The current state of one account's balance. `total` is derived: it is
/// only meaningful after `compute_total` has run on the final state.
#[derive(Debug, PartialEq)]
pub struct ZzClientBalance {
    pub client_id: u16,
    pub available: ZzIAmount,
    pub held: ZzIAmount,
    pub total: ZzIAmount,
    pub locked: bool,
}

/// Spec-level image of `ZzClientBalance`; amounts are their scaled values.
pub struct BalV {
    pub client_id: u16,
    pub available: int,
    pub held: int,
    pub total: int,
    pub locked: bool,
}

impl View for ZzClientBalance {
    type V = BalV;

    open spec fn view(&self) -> BalV {
        BalV {
            client_id: self.client_id,
            available: self.available@,
            held: self.held@,
            total: self.total@,
            locked: self.locked,
        }
    }
}

impl Clone for ZzClientBalance {
    fn clone(&self) -> (r: Self)
        ensures
            r@ == self@,
    {
        ZzClientBalance {
            client_id: self.client_id,
            available: self.available.clone(),
            held: self.held.clone(),
            total: self.total.clone(),
            locked: self.locked,
        }
    }
}

/// What an effect does to a balance: move `available` and `held` by the
/// effect's amount in the stated directions, leave `total` stale, and turn
/// the lock on when the effect demands it (never off).
pub open spec fn spec_apply_effect(b: BalV, e: EffectV) -> BalV {
    BalV {
        client_id: b.client_id,
        available: match e.available {
            Some(up) => if up {
                b.available + e.amount
            } else {
                b.available - e.amount
            },
            None => b.available,
        },
        held: match e.held {
            Some(up) => if up {
                b.held + e.amount
            } else {
                b.held - e.amount
            },
            None => b.held,
        },
        total: b.total,
        locked: b.locked || e.locked,
    }
}

/// The lock is monotonic: applying an effect never unlocks a balance.
pub proof fn lemma_lock_monotonic(b: BalV, e: EffectV)
    ensures
        b.locked ==> spec_apply_effect(b, e).locked,
{
}

/// A fresh, unlocked, all-zero balance for an account.
pub open spec fn spec_fresh_balance(client_id: u16) -> BalV {
    BalV { client_id: client_id, available: 0, held: 0, total: 0, locked: false }
}

impl ZzClientBalance {
    /// A fresh, unlocked, all-zero balance for an account.
    pub fn new_zero(client_id: u16) -> (r: Self)
        ensures
            r@ == spec_fresh_balance(client_id),
    {
        ZzClientBalance {
            client_id,
            available: ZzIAmount::zero(),
            held: ZzIAmount::zero(),
            total: ZzIAmount::zero(),
            locked: false,
        }
    }

    /// Mutates the balance as the effect demands. A locked balance must
    /// never be touched; callers check the lock first and treat a violation
    /// as fatal.
    pub fn process_tx_effect(&mut self, effect: ZzTxEffect)
        requires
            !old(self).locked,
        ensures
            final(self)@ == spec_apply_effect(old(self)@, effect@),
    {
        let amount = effect.amount.to_i_amount();
        if let Some(change_available) = effect.available {
            if change_available {
                self.available.add(&amount);
            } else {
                self.available.sub(&amount);
            }
        }
        if let Some(change_held) = effect.held {
            if change_held {
                self.held.add(&amount);
            } else {
                self.held.sub(&amount);
            }
        }
        self.locked = self.locked || effect.locked;
    }

    /// Recomputes the derived `total` as `available + held`; run once, after
    /// all input has been consumed.
    pub fn compute_total(&mut self)
        ensures
            final(self)@ == (BalV { total: old(self)@.available + old(self)@.held, ..old(self)@ }),
    {
        let mut total = self.available.clone();
        total.add(&self.held);
        self.total = total;
    }
}

} // verus!
