// One test per ledger scenario: each replays a short event log and checks
// the exact final balances. Amounts are in 1/10_000 currency units.

use ledger::account::Account;
use ledger::engine::{Transaction, TransactionEngine, TransactionType};

fn units(n: i64) -> i128 {
    (n as i128) * 10_000
}

fn event(tx_type: TransactionType, client: u16, tx: u32, amount: i128) -> Transaction {
    Transaction { tx_type, client, tx, amount }
}

fn balanced(account: &Account) -> bool {
    account.total == account.available + account.held
}

#[test]
fn deposit_credits_account() {
    let mut engine = TransactionEngine::new();
    engine.process_transaction(event(TransactionType::Deposit, 1, 1, units(10)));
    let account = engine.get_account(1).unwrap();
    assert_eq!(account.available, units(10));
    assert_eq!(account.held, 0);
    assert_eq!(account.total, units(10));
    assert!(!account.locked);
    assert!(balanced(&account));
}

#[test]
fn withdrawal_debits_account() {
    let mut engine = TransactionEngine::new();
    engine.process_transaction(event(TransactionType::Deposit, 1, 1, units(10)));
    engine.process_transaction(event(TransactionType::Withdrawal, 1, 2, units(5)));
    let account = engine.get_account(1).unwrap();
    assert_eq!(account.available, units(5));
    assert_eq!(account.total, units(5));
    assert!(balanced(&account));
}

#[test]
fn dispute_holds_record_amount() {
    let mut engine = TransactionEngine::new();
    engine.process_transaction(event(TransactionType::Deposit, 1, 1, units(10)));
    engine.process_transaction(event(TransactionType::Withdrawal, 1, 3, units(1)));
    engine.process_transaction(event(TransactionType::Dispute, 1, 3, 0));
    let account = engine.get_account(1).unwrap();
    assert_eq!(account.available, units(8));
    assert_eq!(account.held, units(1));
    assert_eq!(account.total, units(9));
    assert!(engine.get_record(3).unwrap().disputed);
    assert!(balanced(&account));
}

#[test]
fn resolve_releases_held_funds() {
    let mut engine = TransactionEngine::new();
    engine.process_transaction(event(TransactionType::Deposit, 1, 1, units(10)));
    engine.process_transaction(event(TransactionType::Withdrawal, 1, 3, units(1)));
    engine.process_transaction(event(TransactionType::Dispute, 1, 3, 0));
    engine.process_transaction(event(TransactionType::Resolve, 1, 3, 0));
    let account = engine.get_account(1).unwrap();
    assert_eq!(account.available, units(9));
    assert_eq!(account.held, 0);
    assert_eq!(account.total, units(9));
    // the resolved record is removed, so it is no longer held as disputed
    assert!(engine.get_record(3).is_none());
    assert!(balanced(&account));
}

#[test]
fn chargeback_locks_account_and_drops_later_events() {
    let mut engine = TransactionEngine::new();
    engine.process_transaction(event(TransactionType::Deposit, 2, 4, units(10)));
    engine.process_transaction(event(TransactionType::Withdrawal, 2, 5, units(5)));
    engine.process_transaction(event(TransactionType::Dispute, 2, 5, 0));
    engine.process_transaction(event(TransactionType::Chargeback, 2, 5, 0));
    // the dispute moved the withdrawn amount from available to held, and
    // the chargeback withdrew it from held and from the full balance
    let account = engine.get_account(2).unwrap();
    assert_eq!(account.available, 0);
    assert_eq!(account.held, 0);
    assert_eq!(account.total, 0);
    assert!(account.locked);
    assert!(balanced(&account));

    // a later deposit for the locked client is dropped entirely
    engine.process_transaction(event(TransactionType::Deposit, 2, 6, units(10)));
    let account = engine.get_account(2).unwrap();
    assert_eq!(account.available, 0);
    assert_eq!(account.held, 0);
    assert_eq!(account.total, 0);
    assert!(account.locked);
    assert!(engine.get_record(6).is_none());
}

#[test]
fn dispute_of_unknown_or_foreign_transaction_changes_no_balance() {
    let mut engine = TransactionEngine::new();
    engine.process_transaction(event(TransactionType::Deposit, 1, 1, units(10)));

    // a dispute naming a transaction id nobody created
    engine.process_transaction(event(TransactionType::Dispute, 1, 99, 0));
    let account = engine.get_account(1).unwrap();
    assert_eq!(account.available, units(10));
    assert_eq!(account.held, 0);
    assert_eq!(account.total, units(10));

    // a dispute from client 3 naming client 1's transaction: client 3's
    // zero available funds cannot cover it, so it is dropped
    engine.process_transaction(event(TransactionType::Dispute, 3, 1, 0));
    let account = engine.get_account(1).unwrap();
    assert_eq!(account.available, units(10));
    assert_eq!(account.held, 0);
    assert_eq!(account.total, units(10));
    let foreign = engine.get_account(3).unwrap();
    assert_eq!(foreign.available, 0);
    assert_eq!(foreign.held, 0);
    assert_eq!(foreign.total, 0);
    assert!(!engine.get_record(1).unwrap().disputed);
}

#[test]
fn withdrawal_of_exact_available_succeeds() {
    let mut engine = TransactionEngine::new();
    engine.process_transaction(event(TransactionType::Deposit, 1, 1, units(10)));
    engine.process_transaction(event(TransactionType::Withdrawal, 1, 2, units(10)));
    let account = engine.get_account(1).unwrap();
    assert_eq!(account.available, 0);
    assert_eq!(account.total, 0);
    assert_eq!(engine.get_record(2).unwrap().amount, units(10));
}

#[test]
fn withdrawal_one_unit_over_available_is_dropped() {
    let mut engine = TransactionEngine::new();
    engine.process_transaction(event(TransactionType::Deposit, 1, 1, units(10)));
    // one 1/10_000 unit more than the available funds
    engine.process_transaction(event(TransactionType::Withdrawal, 1, 2, units(10) + 1));
    let account = engine.get_account(1).unwrap();
    assert_eq!(account.available, units(10));
    assert_eq!(account.total, units(10));
    assert!(engine.get_record(2).is_none());
}

#[test]
fn repeated_dispute_is_a_no_op() {
    let mut engine = TransactionEngine::new();
    engine.process_transaction(event(TransactionType::Deposit, 1, 1, units(10)));
    engine.process_transaction(event(TransactionType::Dispute, 1, 1, 0));
    let before = engine.get_account(1).unwrap();
    let record_before = engine.get_record(1).unwrap();
    engine.process_transaction(event(TransactionType::Dispute, 1, 1, 0));
    assert_eq!(engine.get_account(1).unwrap(), before);
    assert_eq!(engine.get_record(1).unwrap(), record_before);
}

#[test]
fn accounts_list_in_first_seen_order() {
    let mut engine = TransactionEngine::new();
    engine.process_transaction(event(TransactionType::Deposit, 7, 1, units(3)));
    engine.process_transaction(event(TransactionType::Deposit, 2, 2, units(4)));
    engine.process_transaction(event(TransactionType::Deposit, 7, 3, units(5)));
    let accounts = engine.list_accounts();
    assert_eq!(accounts.len(), 2);
    assert_eq!(accounts[0].client, 7);
    assert_eq!(accounts[0].available, units(8));
    assert_eq!(accounts[1].client, 2);
    assert_eq!(accounts[1].available, units(4));
}

#[test]
fn can_apply_refuses_only_overflowing_arithmetic() {
    let mut engine = TransactionEngine::new();
    engine.process_transaction(event(TransactionType::Deposit, 1, 1, i128::MAX));
    // a further deposit would overflow the available balance
    assert!(!engine.can_apply(event(TransactionType::Deposit, 1, 2, 1)));
    // withdrawing is still within limits
    assert!(engine.can_apply(event(TransactionType::Withdrawal, 1, 3, units(1))));
    // and events for other clients are untouched by client 1's balance
    assert!(engine.can_apply(event(TransactionType::Deposit, 2, 4, units(1))));
}

#[test]
fn negative_deposit_keeps_books_balanced() {
    let mut engine = TransactionEngine::new();
    engine.process_transaction(event(TransactionType::Deposit, 1, 1, -units(2)));
    let account = engine.get_account(1).unwrap();
    assert_eq!(account.available, -units(2));
    assert_eq!(account.total, -units(2));
    assert!(balanced(&account));
}
