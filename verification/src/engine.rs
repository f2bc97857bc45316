//! The transaction engine: what one transaction does to one account.

use vstd::prelude::*;
use crate::account::Account;
use crate::account::AccountState;
use crate::consistency::lemma_disputed_amount_is_held;
use crate::consistency::lemma_step_keeps_consistent;
use crate::history::find_deposit;
use crate::history::find_disputed;
use crate::history::lemma_first_deposit_found;
use crate::history::search_matching_deposit_transaction;
use crate::history::search_matching_disputed_transaction;
use crate::transaction::Transaction;
use crate::transaction::TransactionKind;

verus! {

/// The account after the engine has dealt with `t`.
///
/// A transaction is either accepted, and then changes the balances and is
/// appended to the history, or it is rejected, and then nothing changes.
///
/// - A deposit with an amount is always accepted and adds to `available`.
/// - A withdrawal with an amount is accepted if `available` covers it.
/// - A dispute is accepted if the first deposit under its identifier is not
///   disputed and `available` covers that deposit. The deposit's amount moves
///   to `held` and the deposit is flagged.
/// - A resolve is accepted if a dispute on its identifier is on record and
///   the first deposit under the identifier is flagged. The amount moves back
///   and the flag is cleared.
/// - A chargeback is accepted on the same condition. The amount leaves `held`
///   for good, the account is locked, and the flag stays.
pub open spec fn step(s: AccountState, t: Transaction) -> AccountState {
    match t.tx_type {
        TransactionKind::Deposit => match t.amount {
            Some(amount) => AccountState {
                available: s.available + amount,
                history: s.history.push(t),
                ..s
            },
            None => s,
        },
        TransactionKind::Withdrawal => match t.amount {
            Some(amount) => if s.available >= amount {
                AccountState { available: s.available - amount, history: s.history.push(t), ..s }
            } else {
                s
            },
            None => s,
        },
        TransactionKind::Dispute => match find_deposit(s.history, t.tx, false) {
            Some(i) => {
                let amount = s.history[i].amount.unwrap() as int;
                if amount <= s.available {
                    AccountState {
                        available: s.available - amount,
                        held: s.held + amount,
                        history: s.history.update(i, s.history[i].with_disputed(true)).push(t),
                        ..s
                    }
                } else {
                    s
                }
            },
            None => s,
        },
        TransactionKind::Resolve => match find_disputed(s.history, t.tx) {
            Some(i) => {
                let amount = s.history[i].amount.unwrap() as int;
                AccountState {
                    available: s.available + amount,
                    held: s.held - amount,
                    history: s.history.update(i, s.history[i].with_disputed(false)).push(t),
                    ..s
                }
            },
            None => s,
        },
        TransactionKind::Chargeback => match find_disputed(s.history, t.tx) {
            Some(i) => {
                let amount = s.history[i].amount.unwrap() as int;
                AccountState {
                    held: s.held - amount,
                    locked: true,
                    history: s.history.push(t),
                    ..s
                }
            },
            None => s,
        },
    }
}

/// What a ledger does with `t` on an account: a locked account stays as it
/// is, any other goes through the engine.
pub open spec fn apply(s: AccountState, t: Transaction) -> AccountState {
    if s.locked {
        s
    } else {
        step(s, t)
    }
}

/// The account after a sequence of transactions, taken in order, each as
/// `apply` deals with it.
pub open spec fn run(s: AccountState, transactions: Seq<Transaction>) -> AccountState
    decreases transactions.len(),
{
    if transactions.len() == 0 {
        s
    } else {
        apply(run(s, transactions.drop_last()), transactions.last())
    }
}

/// Appends a copy of `transaction` to the account's history.
pub fn add_transaction_to_account(account: &mut Account, transaction: &Transaction)
    ensures
        final(account)@ == (AccountState {
            history: old(account)@.history.push(*transaction),
            ..old(account)@
        }),
{
    account.transactions.push(transaction.clone());
}

/// Applies `transaction` to an account that is not locked: the balances and
/// the history change as `step` says, and the account stays well-formed.
/// The transaction itself is left as it was.
pub fn transaction_engine(transaction: &mut Transaction, account: &mut Account)
    requires
        old(account).wf(),
        !old(account).locked,
    ensures
        final(account)@ == step(old(account)@, *old(transaction)),
        final(account).wf(),
        *final(transaction) == *old(transaction),
{
    proof {
        lemma_step_keeps_consistent(account@, *transaction);
    }
    match transaction.tx_type {
        TransactionKind::Deposit => {
            if let Some(deposit_amount) = transaction.amount {
                // Recorded first: a history that took one more record had
                // room for it, and so have the balances.
                add_transaction_to_account(account, transaction);
                assert(old(account).transactions.len() + 1 == account.transactions.len());
                account.available += deposit_amount as u128;
            }
        },
        TransactionKind::Withdrawal => {
            if let Some(withdrawal_amount) = transaction.amount {
                if account.available >= withdrawal_amount as u128 {
                    account.available -= withdrawal_amount as u128;
                    add_transaction_to_account(account, transaction);
                }
            }
        },
        TransactionKind::Dispute => {
            let search_transaction = search_matching_deposit_transaction(
                transaction.tx,
                &account.transactions,
                false,
            );
            if let Some(i) = search_transaction {
                proof {
                    lemma_first_deposit_found(account@.history, transaction.tx);
                }
                let deposit_transaction = account.transactions[i];
                let amount_move_to_held: u128 = deposit_transaction.amount.unwrap() as u128;
                if amount_move_to_held <= account.available {
                    account.available -= amount_move_to_held;
                    account.held += amount_move_to_held;
                    account.transactions.set(
                        i,
                        Transaction { disputed: true, ..deposit_transaction },
                    );
                    add_transaction_to_account(account, transaction);
                }
            }
        },
        TransactionKind::Resolve => {
            let search_transaction = search_matching_disputed_transaction(
                transaction.tx,
                &account.transactions,
            );
            if let Some(i) = search_transaction {
                proof {
                    lemma_first_deposit_found(account@.history, transaction.tx);
                    lemma_disputed_amount_is_held(account@, transaction.tx);
                }
                let deposit_transaction = account.transactions[i];
                let amount_move_to_available: u128 = deposit_transaction.amount.unwrap() as u128;
                account.held -= amount_move_to_available;
                account.available += amount_move_to_available;
                account.transactions.set(
                    i,
                    Transaction { disputed: false, ..deposit_transaction },
                );
                add_transaction_to_account(account, transaction);
            }
        },
        TransactionKind::Chargeback => {
            let disputed_transaction = search_matching_disputed_transaction(
                transaction.tx,
                &account.transactions,
            );
            if let Some(i) = disputed_transaction {
                proof {
                    lemma_first_deposit_found(account@.history, transaction.tx);
                    lemma_disputed_amount_is_held(account@, transaction.tx);
                }
                let amount: u128 = account.transactions[i].amount.unwrap() as u128;
                account.held -= amount;
                account.locked = true;
                add_transaction_to_account(account, transaction);
            }
        },
    }
}

} // verus!
