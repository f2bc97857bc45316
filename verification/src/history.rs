//! Lookups in an account's history.
//!
//! A history is the sequence of the transactions that an account accepted, in
//! the order in which it accepted them. Disputes, resolves and chargebacks
//! name a deposit by its identifier, and the deposit they mean is the first
//! deposit of that identifier in the history, whatever follows it.

use vstd::prelude::*;
use crate::transaction::Transaction;
use crate::transaction::TransactionKind;

verus! {

/// Whether `i` is the place of the first deposit under `tx` in `history`.
pub open spec fn is_first_deposit(history: Seq<Transaction>, tx: u32, i: int) -> bool {
    &&& 0 <= i < history.len()
    &&& history[i].is_deposit_for(tx)
    &&& forall|j: int| 0 <= j < i ==> !(#[trigger] history[j]).is_deposit_for(tx)
}

/// The place of the first deposit under `tx`, if the history holds one.
pub open spec fn first_deposit(history: Seq<Transaction>, tx: u32) -> Option<int> {
    if exists|i: int| is_first_deposit(history, tx, i) {
        Some(choose|i: int| is_first_deposit(history, tx, i))
    } else {
        None
    }
}

/// Whether the history records an accepted dispute on `tx`.
pub open spec fn has_dispute(history: Seq<Transaction>, tx: u32) -> bool {
    exists|j: int| 0 <= j < history.len() && (#[trigger] history[j]).is_dispute_for(tx)
}

/// The deposit that a lookup for `tx` in the state `disputed` yields: the
/// first deposit under `tx` if its flag is `disputed`, and nothing otherwise.
/// A later deposit under the same identifier is never looked at.
pub open spec fn find_deposit(history: Seq<Transaction>, tx: u32, disputed: bool) -> Option<int> {
    match first_deposit(history, tx) {
        Some(i) => if history[i].disputed == disputed {
            Some(i)
        } else {
            None
        },
        None => None,
    }
}

/// The deposit that a resolve or a chargeback of `tx` acts on: there must be
/// the record of a dispute on `tx`, and the first deposit under `tx` must be
/// flagged as disputed.
pub open spec fn find_disputed(history: Seq<Transaction>, tx: u32) -> Option<int> {
    if has_dispute(history, tx) {
        find_deposit(history, tx, true)
    } else {
        None
    }
}

/// A lookup result as the place it names.
pub open spec fn place(found: Option<usize>) -> Option<int> {
    match found {
        Some(i) => Some(i as int),
        None => None,
    }
}

/// The first deposit under an identifier is unique, so knowing one place that
/// qualifies is knowing what `first_deposit` yields.
pub proof fn lemma_first_deposit_is(history: Seq<Transaction>, tx: u32, i: int)
    requires
        is_first_deposit(history, tx, i),
    ensures
        first_deposit(history, tx) == Some(i),
{
    let k = choose|k: int| is_first_deposit(history, tx, k);
    assert(is_first_deposit(history, tx, k));
    if k < i {
        assert(!history[k].is_deposit_for(tx));
    } else if i < k {
        assert(!history[i].is_deposit_for(tx));
    }
}

/// A history without a deposit under `tx` yields no first deposit.
pub proof fn lemma_first_deposit_none(history: Seq<Transaction>, tx: u32)
    requires
        forall|j: int| 0 <= j < history.len() ==> !(#[trigger] history[j]).is_deposit_for(tx),
    ensures
        first_deposit(history, tx) is None,
{
    if exists|i: int| is_first_deposit(history, tx, i) {
        let k = choose|k: int| is_first_deposit(history, tx, k);
        assert(history[k].is_deposit_for(tx));
    }
}

/// What `first_deposit` yields is a place in the history that qualifies.
pub proof fn lemma_first_deposit_found(history: Seq<Transaction>, tx: u32)
    ensures
        first_deposit(history, tx) matches Some(i) ==> is_first_deposit(history, tx, i),
        first_deposit(history, tx) is None ==> forall|j: int|
            0 <= j < history.len() ==> !(#[trigger] history[j]).is_deposit_for(tx),
{
    if first_deposit(history, tx) is None {
        assert forall|j: int| 0 <= j < history.len() implies !(#[trigger] history[j]).is_deposit_for(
            tx,
        ) by {
            if history[j].is_deposit_for(tx) {
                lemma_some_deposit_has_first(history, tx, j);
            }
        }
    }
}

/// Where some deposit under `tx` exists, a first one exists at or before it.
pub proof fn lemma_some_deposit_has_first(history: Seq<Transaction>, tx: u32, j: int)
    requires
        0 <= j < history.len(),
        history[j].is_deposit_for(tx),
    ensures
        first_deposit(history, tx) matches Some(i) && i <= j && is_first_deposit(history, tx, i),
    decreases j,
{
    if exists|k: int| 0 <= k < j && (#[trigger] history[k]).is_deposit_for(tx) {
        let k = choose|k: int| 0 <= k < j && (#[trigger] history[k]).is_deposit_for(tx);
        lemma_some_deposit_has_first(history, tx, k);
    } else {
        assert(is_first_deposit(history, tx, j));
        lemma_first_deposit_is(history, tx, j);
    }
}

/// Scans the history for the first deposit under `tx` and yields its place if
/// its dispute flag equals `is_disputed`. The scan ends at that deposit: if
/// its flag differs, nothing is found.
pub fn search_matching_deposit_transaction(
    tx: u32,
    account_transactions: &Vec<Transaction>,
    is_disputed: bool,
) -> (found: Option<usize>)
    ensures
        place(found) == find_deposit(account_transactions@, tx, is_disputed),
{
    let mut i: usize = 0;
    while i < account_transactions.len()
        invariant
            i <= account_transactions.len(),
            forall|j: int| 0 <= j < i ==> !(#[trigger] account_transactions@[j]).is_deposit_for(tx),
        decreases account_transactions.len() - i,
    {
        let transaction = &account_transactions[i];
        if transaction.tx == tx && matches!(transaction.tx_type, TransactionKind::Deposit)
            && transaction.amount.is_some() {
            proof {
                lemma_first_deposit_is(account_transactions@, tx, i as int);
            }
            if transaction.disputed == is_disputed {
                return Some(i);
            }
            return None;
        }
        i += 1;
    }
    proof {
        lemma_first_deposit_none(account_transactions@, tx);
    }
    None
}

/// Tells whether the history holds a deposit under `tx`.
pub fn holds_deposit(tx: u32, account_transactions: &Vec<Transaction>) -> (found: bool)
    ensures
        found == first_deposit(account_transactions@, tx) is Some,
{
    let flagged = search_matching_deposit_transaction(tx, account_transactions, true);
    let plain = search_matching_deposit_transaction(tx, account_transactions, false);
    flagged.is_some() || plain.is_some()
}

/// Looks up the deposit that a resolve or a chargeback of `tx` acts on: once
/// the record of a dispute on `tx` is found, the first deposit under `tx` is
/// looked up in the disputed state.
pub fn search_matching_disputed_transaction(
    tx: u32,
    account_transactions: &Vec<Transaction>,
) -> (found: Option<usize>)
    ensures
        place(found) == find_disputed(account_transactions@, tx),
{
    let mut i: usize = 0;
    while i < account_transactions.len()
        invariant
            i <= account_transactions.len(),
            forall|j: int| 0 <= j < i ==> !(#[trigger] account_transactions@[j]).is_dispute_for(tx),
        decreases account_transactions.len() - i,
    {
        let transaction = &account_transactions[i];
        if transaction.tx == tx && matches!(transaction.tx_type, TransactionKind::Dispute) {
            return search_matching_deposit_transaction(tx, account_transactions, true);
        }
        i += 1;
    }
    None
}

} // verus!
