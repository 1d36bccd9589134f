use num_bigint::BigInt;
use num_bigint::BigUint;

use zzledger::client_balance::ZzClientBalance;
use zzledger::transaction::TransactionHashMapImpl;
use zzledger::transaction::TransactionMap;
use zzledger::transaction::ZzTx;
use zzledger::transaction::ZzTxEffect;
use zzledger::transaction::ZzTxType;
use zzledger::zz_amount::ZzIAmount;
use zzledger::zz_amount::ZzUAmount;

fn make_amount(val: u64) -> ZzUAmount {
    ZzUAmount::new(BigUint::from(val), 0).unwrap()
}

fn make_iamount(val: i64) -> ZzIAmount {
    ZzIAmount::new(BigInt::from(val), 0).unwrap()
}

fn make_deposit_tx(client_id: u16, tx_id: u32, amount: u64) -> ZzTx {
    ZzTx { tx_type: ZzTxType::Deposit(make_amount(amount)), client_id, tx_id }
}

fn make_withdraw_tx(client_id: u16, tx_id: u32, amount: u64) -> ZzTx {
    ZzTx { tx_type: ZzTxType::Withdrawal(make_amount(amount)), client_id, tx_id }
}

fn make_dispute_tx(client_id: u16, tx_id: u32) -> ZzTx {
    ZzTx { tx_type: ZzTxType::Dispute, client_id, tx_id }
}

fn make_resolve_tx(client_id: u16, tx_id: u32) -> ZzTx {
    ZzTx { tx_type: ZzTxType::Resolve, client_id, tx_id }
}

fn make_chargeback_tx(client_id: u16, tx_id: u32) -> ZzTx {
    ZzTx { tx_type: ZzTxType::Chargeback, client_id, tx_id }
}

fn make_tx_effect(
    amount: u64,
    available: Option<bool>,
    held: Option<bool>,
    locked: bool,
) -> ZzTxEffect {
    ZzTxEffect { amount: make_amount(amount), available, held, locked }
}

#[test]
fn test_insert_deposit() {
    let mut map = TransactionHashMapImpl::default();
    let tx = make_deposit_tx(1, 100, 50);

    let effect = map.insert_transaction(tx, None).unwrap();
    assert_eq!(effect.amount.display_string(), "50");
    assert_eq!(effect.available, Some(true));
    assert_eq!(effect.held, None);
    assert!(!effect.locked);
}

#[test]
fn test_insert_withdraw() {
    let mut map = TransactionHashMapImpl::default();

    let tx = make_withdraw_tx(1, 101, 30);
    let effect = map
        .insert_transaction(
            tx,
            Some(&ZzClientBalance {
                client_id: 1,
                available: make_iamount(30),
                held: ZzIAmount::zero(),
                total: ZzIAmount::zero(),
                locked: false,
            }),
        )
        .unwrap();
    assert_eq!(effect.amount.display_string(), "30");
    assert_eq!(effect.available, Some(false));
    assert_eq!(effect.held, None);
    assert!(!effect.locked);
}

#[test]
fn test_insert_withdraw_insufficient_funds() {
    let mut map = TransactionHashMapImpl::default();

    let tx = make_withdraw_tx(1, 101, 30);
    let effect = map.insert_transaction(
        tx,
        Some(&ZzClientBalance {
            client_id: 1,
            available: make_iamount(29),
            held: ZzIAmount::zero(),
            total: ZzIAmount::zero(),
            locked: false,
        }),
    );
    assert!(effect.is_none());
    // A failed withdrawal leaves no trace.
    assert!(!map.contains_pair(1, 101));

    // And with no balance at all it always fails.
    let tx = make_withdraw_tx(1, 102, 1);
    assert!(map.insert_transaction(tx, None).is_none());
}

#[test]
fn test_insert_dispute_resolve_chargeback() {
    let mut map = TransactionHashMapImpl::default();

    // Deposit first
    let deposit_tx = make_deposit_tx(1, 200, 100);
    map.insert_transaction(deposit_tx, None).unwrap();

    // Dispute
    let dispute_tx = make_dispute_tx(1, 200);
    let effect = map.insert_transaction(dispute_tx, None).unwrap();
    assert_eq!(effect.available, Some(false));
    assert_eq!(effect.held, Some(true));
    assert!(!effect.locked);

    // Resolve
    let resolve_tx = make_resolve_tx(1, 200);
    let effect = map.insert_transaction(resolve_tx, None).unwrap();
    assert_eq!(effect.available, Some(true));
    assert_eq!(effect.held, Some(false));
    assert!(!effect.locked);

    // Dispute again
    let dispute_tx = make_dispute_tx(1, 200);
    map.insert_transaction(dispute_tx, None).unwrap();

    // Chargeback
    let chargeback_tx = make_chargeback_tx(1, 200);
    let effect = map.insert_transaction(chargeback_tx, None).unwrap();
    assert_eq!(effect.available, None);
    assert_eq!(effect.held, Some(false));
    assert!(effect.locked);

    // A locked entry is final: nothing touches it again.
    let dispute_tx = make_dispute_tx(1, 200);
    assert!(map.insert_transaction(dispute_tx, None).is_none());
}

#[test]
fn test_invalid_dispute_or_resolve_on_nonexistent_tx() {
    let mut map = TransactionHashMapImpl::default();

    // No prior transaction exists
    let dispute_tx = make_dispute_tx(1, 300);
    assert!(map.insert_transaction(dispute_tx, None).is_none());

    let resolve_tx = make_resolve_tx(1, 300);
    assert!(map.insert_transaction(resolve_tx, None).is_none());

    let chargeback_tx = make_chargeback_tx(1, 300);
    assert!(map.insert_transaction(chargeback_tx, None).is_none());
}

#[test]
fn test_tx_with_wrong_client_id_produces_no_effect() {
    let mut map = TransactionHashMapImpl::default();

    // Client 1 deposits
    let deposit_tx = make_deposit_tx(1, 400, 100);
    map.insert_transaction(deposit_tx, None).unwrap();

    // Client 1 disputes
    let dispute_tx = make_dispute_tx(1, 400);
    map.insert_transaction(dispute_tx, None).unwrap();

    // Now a chargeback arrives but with the wrong client_id (2 instead of 1)
    let chargeback_tx = make_chargeback_tx(2, 400);
    let effect = map.insert_transaction(chargeback_tx, None);

    // Because client_id mismatches, nothing should happen
    assert!(effect.is_none());

    // And the transaction map should still only contain the original client_id entry
    assert!(map.contains_pair(1, 400));
    assert!(!map.contains_pair(2, 400));
}

#[test]
fn test_process_tx_effect_deposit() {
    let mut balance = ZzClientBalance {
        client_id: 1,
        available: make_iamount(100),
        held: make_iamount(50),
        total: make_iamount(150),
        locked: false,
    };

    let effect = make_tx_effect(25, Some(true), None, false);
    balance.process_tx_effect(effect);

    assert_eq!(balance.available.display_string(), "125");
    assert_eq!(balance.held.display_string(), "50");
    // locked should remain false
    assert!(!balance.locked);
}

#[test]
fn test_process_tx_effect_withdraw() {
    let mut balance = ZzClientBalance {
        client_id: 1,
        available: make_iamount(100),
        held: make_iamount(50),
        total: make_iamount(150),
        locked: false,
    };

    let effect = make_tx_effect(30, Some(false), None, false);
    balance.process_tx_effect(effect);

    assert_eq!(balance.available.display_string(), "70");
    assert_eq!(balance.held.display_string(), "50");
}

#[test]
fn test_process_tx_effect_held() {
    let mut balance = ZzClientBalance {
        client_id: 1,
        available: make_iamount(100),
        held: make_iamount(50),
        total: make_iamount(150),
        locked: false,
    };

    let effect = make_tx_effect(20, None, Some(true), false);
    balance.process_tx_effect(effect);

    assert_eq!(balance.available.display_string(), "100");
    assert_eq!(balance.held.display_string(), "70");
}

#[test]
fn test_process_tx_effect_locking() {
    let mut balance = ZzClientBalance {
        client_id: 1,
        available: make_iamount(100),
        held: make_iamount(50),
        total: make_iamount(150),
        locked: false,
    };

    let effect = make_tx_effect(10, Some(true), None, true);
    balance.process_tx_effect(effect);
    assert!(balance.locked);
}

#[test]
fn test_total_balance_is_calculated_correctly() {
    let expected_balance = ZzClientBalance {
        client_id: 1,
        available: make_iamount(100),
        held: make_iamount(50),
        total: make_iamount(150),
        locked: false,
    };

    let mut balance = ZzClientBalance {
        client_id: 1,
        available: make_iamount(100),
        held: make_iamount(50),
        total: make_iamount(0),
        locked: false,
    };

    balance.compute_total();

    assert_eq!(balance, expected_balance);
}

#[test]
fn test_dispute_resolve_restores_balance_exactly() {
    let mut map = TransactionHashMapImpl::default();
    let mut balance = ZzClientBalance::new_zero(7);

    let effect = map.insert_transaction(make_deposit_tx(7, 1, 100), None).unwrap();
    balance.process_tx_effect(effect);
    let before = balance.clone();

    let effect = map.insert_transaction(make_dispute_tx(7, 1), Some(&balance)).unwrap();
    balance.process_tx_effect(effect);
    assert_eq!(balance.available.display_string(), "0");
    assert_eq!(balance.held.display_string(), "100");

    let effect = map.insert_transaction(make_resolve_tx(7, 1), Some(&balance)).unwrap();
    balance.process_tx_effect(effect);
    assert_eq!(balance, before);
}

#[test]
fn test_dispute_chargeback_locks_and_reduces_held_only() {
    let mut map = TransactionHashMapImpl::default();
    let mut balance = ZzClientBalance::new_zero(7);

    let effect = map.insert_transaction(make_deposit_tx(7, 1, 100), None).unwrap();
    balance.process_tx_effect(effect);
    let effect = map.insert_transaction(make_dispute_tx(7, 1), Some(&balance)).unwrap();
    balance.process_tx_effect(effect);

    let available_before = balance.available.clone();
    let effect = map.insert_transaction(make_chargeback_tx(7, 1), Some(&balance)).unwrap();
    balance.process_tx_effect(effect);

    assert_eq!(balance.available, available_before);
    assert_eq!(balance.held.display_string(), "0");
    assert!(balance.locked);
}
