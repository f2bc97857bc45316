use ledger_engine::account::Account;
use ledger_engine::ledger::get_transactions;
use ledger_engine::ledger::is_ledger_well_formed;
use ledger_engine::ledger::process_transaction;
use ledger_engine::ledger::process_transactions;
use ledger_engine::transaction::Transaction;
use ledger_engine::transaction::TransactionKind;
use std::collections::HashMap;

fn transaction(
    tx_type: TransactionKind,
    client_id: u16,
    tx: u32,
    amount: Option<u64>,
) -> Transaction {
    Transaction { tx_type, client_id, tx, amount, disputed: false }
}

fn balances(accounts: &HashMap<u16, Account>, client: u16) -> (u128, u128, bool, usize) {
    let account = accounts.get(&client).unwrap();
    (account.available, account.held, account.locked, account.transactions.len())
}

#[test]
fn an_account_is_created_for_a_client_that_is_named() {
    let mut accounts: HashMap<u16, Account> = HashMap::new();
    let mut dispute = transaction(TransactionKind::Dispute, 7, 1, None);
    process_transaction(&mut dispute, &mut accounts);
    assert_eq!(accounts.len(), 1);
    assert_eq!(balances(&accounts, 7), (0, 0, false, 0));
    assert_eq!(dispute, transaction(TransactionKind::Dispute, 7, 1, None));
}

#[test]
fn a_transaction_touches_the_account_of_its_client_only() {
    let accounts = process_transactions(vec![
        transaction(TransactionKind::Deposit, 1, 1, Some(100)),
        transaction(TransactionKind::Deposit, 2, 2, Some(200)),
        transaction(TransactionKind::Dispute, 2, 1, None),
        transaction(TransactionKind::Withdrawal, 1, 3, Some(30)),
        transaction(TransactionKind::Dispute, 1, 2, None),
    ]);
    assert_eq!(accounts.len(), 2);
    assert_eq!(balances(&accounts, 1), (70, 0, false, 2));
    assert_eq!(balances(&accounts, 2), (200, 0, false, 1));
}

#[test]
fn a_locked_account_stays_as_it_is() {
    let mut accounts = process_transactions(vec![
        transaction(TransactionKind::Deposit, 1, 1, Some(100)),
        transaction(TransactionKind::Deposit, 1, 2, Some(50)),
        transaction(TransactionKind::Dispute, 1, 1, None),
        transaction(TransactionKind::Chargeback, 1, 1, None),
    ]);
    assert_eq!(balances(&accounts, 1), (50, 0, true, 4));
    for mut later in [
        transaction(TransactionKind::Deposit, 1, 3, Some(1)),
        transaction(TransactionKind::Withdrawal, 1, 4, Some(1)),
        transaction(TransactionKind::Dispute, 1, 2, None),
        transaction(TransactionKind::Resolve, 1, 1, None),
        transaction(TransactionKind::Chargeback, 1, 1, None),
    ] {
        process_transaction(&mut later, &mut accounts);
        assert_eq!(balances(&accounts, 1), (50, 0, true, 4));
    }
    // Another client's account is not locked by it.
    let mut other = transaction(TransactionKind::Deposit, 2, 5, Some(9));
    process_transaction(&mut other, &mut accounts);
    assert_eq!(balances(&accounts, 2), (9, 0, false, 1));
}

#[test]
fn no_transactions_leave_the_ledger_empty() {
    assert_eq!(process_transactions(vec![]).len(), 0);
}

#[test]
fn a_document_is_processed_row_by_row() {
    let data = "\
type, client, tx, amount
deposit, 1, 1, 1.0
deposit, 2, 2, 2.0
deposit, 1, 3, 2.0
withdrawal, 1, 4, 1.5
withdrawal, 2, 5, 3.0
dispute, 1, 3,
not a row
dispute, 2, 2,
chargeback, 2, 2,
deposit, 2, 6, 100.0
";
    let accounts = get_transactions(data.as_bytes());
    assert_eq!(accounts.len(), 2);
    // The dispute of 2.0 finds 1.5 available and is rejected.
    assert_eq!(balances(&accounts, 1), (15_000, 0, false, 3));
    assert_eq!(balances(&accounts, 2), (0, 0, true, 3));
}

#[test]
fn a_row_that_is_skipped_creates_no_account() {
    let data = b"type,client,tx,amount\ndeposit,9,1,\ntransfer,8,2,1.0\nresolve,7,3,\n";
    let accounts = get_transactions(data);
    assert_eq!(accounts.len(), 1);
    assert_eq!(balances(&accounts, 7), (0, 0, false, 0));
}

#[test]
fn a_ledger_is_well_formed_if_each_account_is() {
    let mut accounts = process_transactions(vec![
        transaction(TransactionKind::Deposit, 1, 1, Some(100)),
        transaction(TransactionKind::Deposit, 2, 2, Some(200)),
        transaction(TransactionKind::Dispute, 2, 2, None),
    ]);
    assert!(is_ledger_well_formed(&accounts));
    assert!(is_ledger_well_formed(&HashMap::new()));
    // An account that holds less than its deposits under dispute.
    accounts.get_mut(&2).unwrap().held = 199;
    assert!(!is_ledger_well_formed(&accounts));
    accounts.get_mut(&2).unwrap().held = 200;
    assert!(is_ledger_well_formed(&accounts));
}
