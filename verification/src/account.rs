//! One client's account and its mathematical model.

use vstd::prelude::*;
use crate::history::find_disputed;
use crate::history::first_deposit;
use crate::history::holds_deposit;
use crate::history::lemma_first_deposit_found;
use crate::history::search_matching_disputed_transaction;
use crate::transaction::Transaction;
use crate::transaction::TransactionKind;

verus! {

/// A client's funds and the history they result from.
///
/// `available` and `held` count ten-thousandths of a unit. `transactions` is
/// the history: the transactions that the account accepted, oldest first.
pub struct Account {
    pub available: u128,
    pub held: u128,
    pub locked: bool,
    pub transactions: Vec<Transaction>,
}

/// The model of an account: its balances as integers and its history as a
/// sequence.
pub struct AccountState {
    pub available: int,
    pub held: int,
    pub locked: bool,
    pub history: Seq<Transaction>,
}

impl View for Account {
    type V = AccountState;

    open spec fn view(&self) -> AccountState {
        AccountState {
            available: self.available as int,
            held: self.held as int,
            locked: self.locked,
            history: self.transactions@,
        }
    }
}

/// What the record at `i` keeps frozen: its amount while it is the deposit
/// that a resolve or a chargeback of its identifier would act on, else nothing.
pub open spec fn held_at(history: Seq<Transaction>, i: int) -> int {
    if find_disputed(history, history[i].tx) == Some(i) {
        history[i].amount.unwrap() as int
    } else {
        0
    }
}

/// What the first `n` records of the history keep frozen.
pub open spec fn held_upto(history: Seq<Transaction>, n: int) -> int
    decreases n,
{
    if n <= 0 {
        0
    } else {
        held_upto(history, n - 1) + held_at(history, n - 1)
    }
}

/// The sum of the deposits that are under dispute.
pub open spec fn total_under_dispute(history: Seq<Transaction>) -> int {
    held_upto(history, history.len() as int)
}

/// Every dispute on record names a deposit on record.
pub open spec fn disputes_name_deposits(history: Seq<Transaction>) -> bool {
    forall|j: int|
        0 <= j < history.len() && (#[trigger] history[j]).tx_type is Dispute ==> first_deposit(
            history,
            history[j].tx,
        ) is Some
}

/// What the largest amount is worth: the most that one record can add to an
/// account's balances.
pub open spec fn max_amount() -> int {
    u64::MAX as int
}

impl AccountState {
    /// The state of an account that no transaction has reached yet.
    pub open spec fn fresh() -> AccountState {
        AccountState { available: 0, held: 0, locked: false, history: Seq::empty() }
    }

    /// The balances agree with the history: nothing is negative, disputes
    /// refer to deposits, and until a chargeback locks the account what is
    /// held covers the deposits under dispute.
    pub open spec fn consistent(self) -> bool {
        &&& 0 <= self.available
        &&& 0 <= self.held
        &&& disputes_name_deposits(self.history)
        &&& !self.locked ==> self.held >= total_under_dispute(self.history)
    }

    /// Until a chargeback locks the account, what is held is the sum of the
    /// deposits under dispute and nothing more.
    pub open spec fn reconciled(self) -> bool {
        !self.locked ==> self.held == total_under_dispute(self.history)
    }
}

impl Account {
    /// The account is consistent, and its balances leave room for every
    /// amount that its history can still take up, so that no transaction
    /// can overflow them.
    pub open spec fn wf(&self) -> bool {
        &&& self@.consistent()
        &&& self.available + self.held + (usize::MAX - self.transactions.len()) * max_amount()
            <= u128::MAX
    }

    /// Tells whether the account is well-formed. An account that was put
    /// together by hand can be checked with it before it is handed to the
    /// engine.
    pub fn is_well_formed(&self) -> (ok: bool)
        ensures
            ok == self.wf(),
    {
        let len = self.transactions.len();
        let room: u128 = (usize::MAX - len) as u128 * (u64::MAX as u128);
        if self.available > u128::MAX - room || self.held > u128::MAX - room - self.available {
            return false;
        }
        let mut total: u128 = 0;
        let mut i: usize = 0;
        while i < len
            invariant
                i <= len,
                len == self.transactions.len(),
                total == held_upto(self.transactions@, i as int),
                total <= i * max_amount(),
                forall|j: int|
                    0 <= j < i && (#[trigger] self.transactions@[j]).tx_type is Dispute
                        ==> first_deposit(self.transactions@, self.transactions@[j].tx) is Some,
            decreases len - i,
        {
            let transaction = &self.transactions[i];
            if matches!(transaction.tx_type, TransactionKind::Dispute) && !holds_deposit(
                transaction.tx,
                &self.transactions,
            ) {
                return false;
            }
            let found = search_matching_disputed_transaction(transaction.tx, &self.transactions);
            proof {
                lemma_first_deposit_found(self.transactions@, transaction.tx);
            }
            if found == Some(i) {
                total += transaction.amount.unwrap() as u128;
            }
            i += 1;
        }
        self.locked || self.held >= total
    }

    /// An account without funds and without history.
    pub fn new() -> (account: Account)
        ensures
            account@ == AccountState::fresh(),
            account.wf(),
    {
        Account { available: 0, held: 0, locked: false, transactions: Vec::new() }
    }
}

} // verus!
