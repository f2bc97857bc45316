use ledger_engine::account::Account;
use ledger_engine::engine::add_transaction_to_account;
use ledger_engine::engine::transaction_engine;
use ledger_engine::history::search_matching_deposit_transaction;
use ledger_engine::history::search_matching_disputed_transaction;
use ledger_engine::transaction::Transaction;
use ledger_engine::transaction::TransactionKind;

fn deposit(tx: u32, amount: u64) -> Transaction {
    Transaction {
        tx_type: TransactionKind::Deposit,
        client_id: 1,
        tx,
        amount: Some(amount),
        disputed: false,
    }
}

fn withdrawal(tx: u32, amount: u64) -> Transaction {
    Transaction {
        tx_type: TransactionKind::Withdrawal,
        client_id: 1,
        tx,
        amount: Some(amount),
        disputed: false,
    }
}

fn reference(tx_type: TransactionKind, tx: u32) -> Transaction {
    Transaction { tx_type, client_id: 1, tx, amount: None, disputed: false }
}

fn dispute(tx: u32) -> Transaction {
    reference(TransactionKind::Dispute, tx)
}

fn resolve(tx: u32) -> Transaction {
    reference(TransactionKind::Resolve, tx)
}

fn chargeback(tx: u32) -> Transaction {
    reference(TransactionKind::Chargeback, tx)
}

fn flagged(transaction: Transaction) -> Transaction {
    Transaction { disputed: true, ..transaction }
}

/// Runs the transactions through the engine as a ledger would: a locked
/// account takes no more.
fn run(account: &mut Account, transactions: &[Transaction]) {
    for transaction in transactions {
        let mut transaction = *transaction;
        if !account.locked {
            transaction_engine(&mut transaction, account);
        }
    }
}

fn account_after(transactions: &[Transaction]) -> Account {
    let mut account = Account::new();
    run(&mut account, transactions);
    account
}

fn state(account: &Account) -> (u128, u128, bool, Vec<Transaction>) {
    (account.available, account.held, account.locked, account.transactions.clone())
}

#[test]
fn a_new_account_is_empty() {
    let account = Account::new();
    assert_eq!(state(&account), (0, 0, false, vec![]));
}

#[test]
fn a_deposit_adds_to_available_and_is_recorded() {
    let account = account_after(&[deposit(1, 15_000), deposit(2, 1)]);
    assert_eq!(state(&account), (15_001, 0, false, vec![deposit(1, 15_000), deposit(2, 1)]));
}

#[test]
fn a_deposit_of_the_largest_amount_is_accepted() {
    let account = account_after(&[deposit(1, u64::MAX), deposit(2, u64::MAX)]);
    assert_eq!(account.available, 2 * (u64::MAX as u128));
    assert_eq!(account.transactions.len(), 2);
}

#[test]
fn a_deposit_without_amount_is_not_recorded() {
    let account = account_after(&[reference(TransactionKind::Deposit, 1)]);
    assert_eq!(state(&account), (0, 0, false, vec![]));
}

#[test]
fn a_withdrawal_of_all_that_is_available_is_accepted() {
    let account = account_after(&[deposit(1, 500), withdrawal(2, 500)]);
    assert_eq!(state(&account), (0, 0, false, vec![deposit(1, 500), withdrawal(2, 500)]));
}

#[test]
fn a_withdrawal_beyond_available_changes_nothing() {
    let mut account = account_after(&[deposit(1, 500)]);
    let before = state(&account);
    run(&mut account, &[withdrawal(2, 501)]);
    assert_eq!(state(&account), before);
    run(&mut account, &[withdrawal(3, u64::MAX)]);
    assert_eq!(state(&account), before);
}

#[test]
fn a_withdrawal_without_amount_changes_nothing() {
    let mut account = account_after(&[deposit(1, 500)]);
    let before = state(&account);
    run(&mut account, &[reference(TransactionKind::Withdrawal, 2)]);
    assert_eq!(state(&account), before);
}

#[test]
fn available_is_never_negative() {
    let transactions = [
        withdrawal(1, 1),
        deposit(2, 100),
        withdrawal(3, 101),
        withdrawal(4, 60),
        dispute(2),
        withdrawal(5, 41),
        withdrawal(6, 40),
        deposit(7, 100),
        dispute(2),
        withdrawal(8, 1),
        resolve(2),
        withdrawal(9, 100),
    ];
    let expected: [u128; 12] = [0, 100, 100, 40, 40, 40, 0, 100, 0, 0, 100, 0];
    let mut account = Account::new();
    for (transaction, available) in transactions.iter().zip(expected) {
        run(&mut account, &[*transaction]);
        assert_eq!(account.available, available);
    }
    assert_eq!(account.held, 0);
}

#[test]
fn a_dispute_moves_the_deposit_to_held() {
    let account = account_after(&[deposit(1, 300), deposit(2, 200), dispute(2)]);
    assert_eq!(
        state(&account),
        (300, 200, false, vec![deposit(1, 300), flagged(deposit(2, 200)), dispute(2)])
    );
}

#[test]
fn a_dispute_is_recorded_as_it_came() {
    let with_amount = Transaction { amount: Some(7), client_id: 9, ..dispute(1) };
    let account = account_after(&[deposit(1, 300), with_amount]);
    assert_eq!(state(&account), (0, 300, false, vec![flagged(deposit(1, 300)), with_amount]));
}

#[test]
fn a_dispute_that_available_does_not_cover_changes_nothing() {
    let mut account = account_after(&[deposit(1, 300), withdrawal(2, 1)]);
    let before = state(&account);
    run(&mut account, &[dispute(1)]);
    assert_eq!(state(&account), before);
}

#[test]
fn a_dispute_of_exactly_what_is_available_is_accepted() {
    let account = account_after(&[deposit(1, 300), deposit(2, 5), withdrawal(3, 5), dispute(1)]);
    assert_eq!((account.available, account.held), (0, 300));
}

#[test]
fn a_dispute_needs_a_deposit() {
    let mut account = account_after(&[deposit(1, 300), withdrawal(2, 100)]);
    let before = state(&account);
    run(&mut account, &[dispute(2), dispute(3)]);
    assert_eq!(state(&account), before);
}

#[test]
fn a_second_dispute_has_no_effect() {
    let mut account = account_after(&[deposit(1, 300), deposit(2, 50), dispute(1)]);
    let before = state(&account);
    run(&mut account, &[dispute(1)]);
    assert_eq!(state(&account), before);
}

#[test]
fn a_dispute_stays_without_effect_until_a_resolve() {
    let mut account = account_after(&[deposit(1, 300), dispute(1), deposit(2, 1_000)]);
    run(&mut account, &[withdrawal(3, 10), dispute(2), resolve(2), deposit(4, 5)]);
    let before = state(&account);
    run(&mut account, &[dispute(1)]);
    assert_eq!(state(&account), before);
    run(&mut account, &[resolve(1), dispute(1)]);
    assert_eq!((account.available, account.held), (995, 300));
}

#[test]
fn a_resolve_undoes_the_dispute() {
    let mut account = account_after(&[deposit(1, 300), deposit(2, 200), withdrawal(3, 100)]);
    let (available, held, locked, history) = state(&account);
    run(&mut account, &[dispute(2), resolve(2)]);
    assert_eq!(account.available, available);
    assert_eq!(account.held, held);
    assert_eq!(account.locked, locked);
    assert_eq!(account.transactions[1].disputed, false);
    let mut expected = history;
    expected.push(dispute(2));
    expected.push(resolve(2));
    assert_eq!(account.transactions, expected);
}

#[test]
fn a_resolved_deposit_can_be_disputed_again() {
    let account = account_after(&[deposit(1, 300), dispute(1), resolve(1), dispute(1)]);
    assert_eq!((account.available, account.held), (0, 300));
    assert_eq!(account.transactions.len(), 4);
    assert!(account.transactions[0].disputed);
}

#[test]
fn a_resolve_needs_a_dispute_on_record() {
    // The deposit is flagged, but no dispute on it was ever accepted.
    let mut account = Account {
        available: 0,
        held: 0,
        locked: false,
        transactions: vec![flagged(deposit(1, 300))],
    };
    let before = state(&account);
    run(&mut account, &[resolve(1), chargeback(1)]);
    assert_eq!(state(&account), before);
}

#[test]
fn a_resolve_needs_a_disputed_deposit() {
    let mut account = account_after(&[deposit(1, 300), dispute(1), resolve(1)]);
    let before = state(&account);
    run(&mut account, &[resolve(1)]);
    assert_eq!(state(&account), before);
    run(&mut account, &[chargeback(1)]);
    assert_eq!(state(&account), before);
}

#[test]
fn a_chargeback_takes_the_deposit_and_locks() {
    let mut account = account_after(&[deposit(1, 300), deposit(2, 200), dispute(1), dispute(2)]);
    assert_eq!((account.available, account.held), (0, 500));
    run(&mut account, &[chargeback(2)]);
    assert_eq!(
        state(&account),
        (
            0,
            300,
            true,
            vec![
                flagged(deposit(1, 300)),
                flagged(deposit(2, 200)),
                dispute(1),
                dispute(2),
                chargeback(2),
            ]
        )
    );
}

#[test]
fn a_chargeback_leaves_available_as_it_was() {
    let mut account = account_after(&[deposit(1, 300), deposit(2, 200), dispute(2)]);
    let available = account.available;
    let held = account.held;
    run(&mut account, &[chargeback(2)]);
    assert_eq!(account.available, available);
    assert_eq!(account.held, held - 200);
    assert!(account.locked);
}

#[test]
fn a_locked_account_takes_nothing_more() {
    let mut account = account_after(&[deposit(1, 300), deposit(2, 200), dispute(1), chargeback(1)]);
    let before = state(&account);
    run(
        &mut account,
        &[deposit(3, 1), withdrawal(4, 1), dispute(2), resolve(1), chargeback(1), resolve(2)],
    );
    assert_eq!(state(&account), before);
}

#[test]
fn only_the_first_deposit_of_an_identifier_is_looked_at() {
    let mut account = account_after(&[deposit(1, 300), deposit(1, 50), dispute(1)]);
    assert_eq!((account.available, account.held), (50, 300));
    assert!(account.transactions[0].disputed);
    assert!(!account.transactions[1].disputed);
    // The first deposit is disputed already, and the second is never reached.
    let before = state(&account);
    run(&mut account, &[dispute(1)]);
    assert_eq!(state(&account), before);
    run(&mut account, &[resolve(1)]);
    assert_eq!((account.available, account.held), (350, 0));
}

#[test]
fn a_deposit_that_arrives_flagged_cannot_be_disputed() {
    let mut account = account_after(&[flagged(deposit(1, 300))]);
    assert_eq!(state(&account), (300, 0, false, vec![flagged(deposit(1, 300))]));
    let before = state(&account);
    run(&mut account, &[dispute(1), resolve(1), chargeback(1)]);
    assert_eq!(state(&account), before);
}

#[test]
fn the_engine_leaves_the_transaction_as_it_was() {
    let mut account = account_after(&[deposit(1, 300)]);
    let mut transaction = dispute(1);
    transaction_engine(&mut transaction, &mut account);
    assert_eq!(transaction, dispute(1));
    let mut transaction = resolve(1);
    transaction_engine(&mut transaction, &mut account);
    assert_eq!(transaction, resolve(1));
}

#[test]
fn held_is_the_sum_of_the_deposits_under_dispute() {
    let mut account = account_after(&[deposit(1, 1), deposit(2, 20), deposit(3, 300)]);
    run(&mut account, &[dispute(1), dispute(3)]);
    assert_eq!((account.available, account.held), (20, 301));
    run(&mut account, &[resolve(1), dispute(2)]);
    assert_eq!((account.available, account.held), (1, 320));
    run(&mut account, &[resolve(3), resolve(2)]);
    assert_eq!((account.available, account.held), (321, 0));
}

#[test]
fn a_record_is_appended_at_the_end() {
    let mut account = account_after(&[deposit(1, 300)]);
    add_transaction_to_account(&mut account, &withdrawal(2, 5));
    assert_eq!(state(&account), (300, 0, false, vec![deposit(1, 300), withdrawal(2, 5)]));
}

#[test]
fn the_deposit_lookup_ends_at_the_first_deposit() {
    let history = vec![
        withdrawal(1, 5),
        dispute(1),
        reference(TransactionKind::Deposit, 1),
        flagged(deposit(1, 300)),
        deposit(1, 50),
        deposit(2, 7),
    ];
    assert_eq!(search_matching_deposit_transaction(1, &history, true), Some(3));
    assert_eq!(search_matching_deposit_transaction(1, &history, false), None);
    assert_eq!(search_matching_deposit_transaction(2, &history, false), Some(5));
    assert_eq!(search_matching_deposit_transaction(2, &history, true), None);
    assert_eq!(search_matching_deposit_transaction(3, &history, false), None);
    assert_eq!(search_matching_deposit_transaction(3, &vec![], false), None);
}

#[test]
fn the_disputed_lookup_needs_the_record_of_a_dispute() {
    let history = vec![flagged(deposit(1, 300)), flagged(deposit(2, 50)), dispute(2), resolve(1)];
    assert_eq!(search_matching_disputed_transaction(1, &history), None);
    assert_eq!(search_matching_disputed_transaction(2, &history), Some(1));
    let history = vec![deposit(2, 50), dispute(2)];
    assert_eq!(search_matching_disputed_transaction(2, &history), None);
    let history = vec![dispute(2), flagged(deposit(2, 50))];
    assert_eq!(search_matching_disputed_transaction(2, &history), Some(1));
    assert_eq!(search_matching_disputed_transaction(2, &vec![]), None);
}

#[test]
fn accounts_that_the_engine_made_are_well_formed() {
    let mut account = Account::new();
    assert!(account.is_well_formed());
    for transaction in [
        deposit(1, 300),
        flagged(deposit(2, 200)),
        dispute(2),
        dispute(1),
        deposit(1, 7),
        withdrawal(3, 8),
        resolve(1),
        dispute(1),
        deposit(4, u64::MAX),
        dispute(4),
        chargeback(1),
        deposit(5, 1),
    ] {
        run(&mut account, &[transaction]);
        assert!(account.is_well_formed());
    }
    assert!(account.locked);
}

#[test]
fn accounts_made_by_hand_can_be_well_formed() {
    let history = vec![deposit(1, 1_000_000), flagged(deposit(2, 500_000)), dispute(2)];
    let account =
        Account { available: 1_000_000, held: 500_000, locked: false, transactions: history };
    assert!(account.is_well_formed());
    let account = Account { available: 1_000_000, held: 0, locked: false, transactions: vec![] };
    assert!(account.is_well_formed());
    // More may be held than the deposits under dispute account for.
    let account = Account { available: 0, held: 5, locked: false, transactions: vec![] };
    assert!(account.is_well_formed());
}

#[test]
fn held_must_cover_the_deposits_under_dispute() {
    let history = vec![flagged(deposit(2, 500_000)), dispute(2)];
    let account =
        Account { available: 0, held: 499_999, locked: false, transactions: history.clone() };
    assert!(!account.is_well_formed());
    // A locked account has given up what it held.
    let account = Account { available: 0, held: 0, locked: true, transactions: history };
    assert!(account.is_well_formed());
}

#[test]
fn a_dispute_on_record_must_name_a_deposit() {
    let account = Account { available: 0, held: 0, locked: false, transactions: vec![dispute(1)] };
    assert!(!account.is_well_formed());
    let history = vec![withdrawal(1, 5), dispute(1)];
    let account = Account { available: 0, held: 0, locked: false, transactions: history };
    assert!(!account.is_well_formed());
    let history = vec![dispute(1), deposit(1, 5)];
    let account = Account { available: 0, held: 0, locked: false, transactions: history };
    assert!(account.is_well_formed());
}

#[test]
fn balances_must_leave_room_for_what_may_come() {
    let room = (usize::MAX as u128) * (u64::MAX as u128);
    let account =
        Account { available: u128::MAX - room, held: 0, locked: false, transactions: vec![] };
    assert!(account.is_well_formed());
    let account =
        Account { available: u128::MAX - room, held: 1, locked: false, transactions: vec![] };
    assert!(!account.is_well_formed());
    let account = Account { available: 0, held: u128::MAX, locked: true, transactions: vec![] };
    assert!(!account.is_well_formed());
    // Each record in the history makes room for one more amount.
    let account = Account {
        available: u128::MAX - room + u64::MAX as u128,
        held: 0,
        locked: false,
        transactions: vec![deposit(1, 5)],
    };
    assert!(account.is_well_formed());
}

#[test]
fn a_rejected_dispute_and_its_resolve_change_nothing() {
    // The deposit is not covered any more, so the dispute is rejected.
    let mut account = account_after(&[deposit(1, 300), withdrawal(2, 1)]);
    let before = state(&account);
    run(&mut account, &[dispute(1), resolve(1)]);
    assert_eq!(state(&account), before);
    // There is no deposit under the identifier.
    run(&mut account, &[dispute(7), resolve(7)]);
    assert_eq!(state(&account), before);
}

#[test]
fn a_chargeback_follows_an_earlier_dispute_too() {
    let mut account = account_after(&[deposit(1, 300), deposit(2, 50), dispute(1)]);
    let (available, held, _, history) = state(&account);
    // The second dispute is rejected, and the deposit is still under dispute.
    run(&mut account, &[dispute(1), chargeback(1)]);
    assert!(account.locked);
    assert_eq!(account.available, available);
    assert_eq!(account.held, held - 300);
    assert_eq!(account.transactions.len(), history.len() + 1);
}

#[test]
fn a_chargeback_needs_a_deposit_under_dispute() {
    let mut account = account_after(&[deposit(1, 300), withdrawal(2, 1)]);
    let before = state(&account);
    run(&mut account, &[dispute(1), chargeback(1)]);
    assert_eq!(state(&account), before);
    assert!(!account.locked);
}
