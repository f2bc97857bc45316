//! Why the engine keeps an account consistent.
//!
//! The sum of the deposits under dispute is taken record by record. The
//! lemmas here show how that sum moves when a record is appended or a flag
//! changes, and from them that every step of the engine leaves the balances
//! in agreement with the history.

use vstd::prelude::*;
use crate::account::disputes_name_deposits;
use crate::account::held_at;
use crate::account::held_upto;
use crate::account::total_under_dispute;
use crate::account::AccountState;
use crate::engine::step;
use crate::history::find_deposit;
use crate::history::find_disputed;
use crate::history::first_deposit;
use crate::history::has_dispute;
use crate::history::is_first_deposit;
use crate::history::lemma_first_deposit_found;
use crate::history::lemma_first_deposit_is;
use crate::history::lemma_first_deposit_none;
use crate::transaction::Transaction;
use crate::transaction::TransactionKind;

verus! {

/// Two histories that agree on which of their common places hold a deposit
/// under `tx` have the same first deposit under `tx`, provided that the
/// longer one adds no deposit under `tx` where the shorter one has none.
pub proof fn lemma_first_deposit_stable(h: Seq<Transaction>, h2: Seq<Transaction>, tx: u32)
    requires
        h.len() <= h2.len(),
        forall|j: int|
            0 <= j < h.len() ==> (#[trigger] h2[j]).is_deposit_for(tx) == h[j].is_deposit_for(tx),
        first_deposit(h, tx) is Some || forall|j: int|
            h.len() <= j < h2.len() ==> !(#[trigger] h2[j]).is_deposit_for(tx),
    ensures
        first_deposit(h2, tx) == first_deposit(h, tx),
{
    lemma_first_deposit_found(h, tx);
    match first_deposit(h, tx) {
        Some(i) => {
            assert(is_first_deposit(h2, tx, i)) by {
                assert(h2[i].is_deposit_for(tx) == h[i].is_deposit_for(tx));
                assert forall|j: int| 0 <= j < i implies !(#[trigger] h2[j]).is_deposit_for(tx) by {
                    assert(!h[j].is_deposit_for(tx));
                }
            }
            lemma_first_deposit_is(h2, tx, i);
        },
        None => {
            assert forall|j: int| 0 <= j < h2.len() implies !(#[trigger] h2[j]).is_deposit_for(
                tx,
            ) by {
                if j < h.len() {
                    assert(!h[j].is_deposit_for(tx));
                }
            }
            lemma_first_deposit_none(h2, tx);
        },
    }
}

/// Two histories that hold the records of disputes on `tx` at the same
/// places record a dispute on `tx` both or neither.
pub proof fn lemma_has_dispute_stable(h: Seq<Transaction>, h2: Seq<Transaction>, tx: u32)
    requires
        h.len() <= h2.len(),
        forall|j: int|
            0 <= j < h.len() ==> (#[trigger] h2[j]).is_dispute_for(tx) == h[j].is_dispute_for(tx),
        forall|j: int| h.len() <= j < h2.len() ==> !(#[trigger] h2[j]).is_dispute_for(tx),
    ensures
        has_dispute(h2, tx) == has_dispute(h, tx),
{
    if has_dispute(h, tx) {
        let j = choose|j: int| 0 <= j < h.len() && (#[trigger] h[j]).is_dispute_for(tx);
        assert(h2[j].is_dispute_for(tx));
    }
    if has_dispute(h2, tx) {
        let j = choose|j: int| 0 <= j < h2.len() && (#[trigger] h2[j]).is_dispute_for(tx);
        assert(h[j].is_dispute_for(tx));
    }
}

/// The sum over the first `n` records is at least what any one of them
/// keeps frozen.
pub proof fn lemma_held_upto_covers(h: Seq<Transaction>, n: int, i: int)
    requires
        0 <= i < n,
    ensures
        0 <= held_at(h, i) <= held_upto(h, n),
    decreases n,
{
    lemma_held_upto_nonnegative(h, n - 1);
    if i < n - 1 {
        lemma_held_upto_covers(h, n - 1, i);
    }
}

/// No sum of frozen amounts is negative.
pub proof fn lemma_held_upto_nonnegative(h: Seq<Transaction>, n: int)
    ensures
        0 <= held_upto(h, n),
    decreases n,
{
    if n > 0 {
        lemma_held_upto_nonnegative(h, n - 1);
    }
}

/// If two histories keep the same frozen at each of their first `n` places
/// but for `m`, where the second keeps `d` more, then their sums over those
/// places differ by `d`, or not at all if `m` is not among them.
pub proof fn lemma_held_upto_differs_at(
    h: Seq<Transaction>,
    h2: Seq<Transaction>,
    n: int,
    m: int,
    d: int,
)
    requires
        forall|i: int| 0 <= i < n && i != m ==> #[trigger] held_at(h2, i) == held_at(h, i),
        0 <= m < n ==> held_at(h2, m) == held_at(h, m) + d,
    ensures
        held_upto(h2, n) == held_upto(h, n) + if 0 <= m < n {
            d
        } else {
            0
        },
    decreases n,
{
    if n > 0 {
        lemma_held_upto_differs_at(h, h2, n - 1, m, d);
        if n - 1 != m {
            assert(held_at(h2, n - 1) == held_at(h, n - 1));
        }
    }
}

/// Appending a record that is no dispute changes no lookup of a disputed
/// deposit, keeps every dispute referring to a deposit, and keeps the sum of
/// the deposits under dispute.
pub proof fn lemma_append_plain(h: Seq<Transaction>, t: Transaction)
    requires
        disputes_name_deposits(h),
        !(t.tx_type is Dispute),
    ensures
        forall|tx: u32| #[trigger] find_disputed(h.push(t), tx) == find_disputed(h, tx),
        disputes_name_deposits(h.push(t)),
        total_under_dispute(h.push(t)) == total_under_dispute(h),
{
    let h2 = h.push(t);
    assert forall|tx: u32| #[trigger] find_disputed(h2, tx) == find_disputed(h, tx) by {
        lemma_has_dispute_stable(h, h2, tx);
        if has_dispute(h, tx) {
            let j = choose|j: int| 0 <= j < h.len() && (#[trigger] h[j]).is_dispute_for(tx);
            assert(first_deposit(h, h[j].tx) is Some);
            lemma_first_deposit_stable(h, h2, tx);
        }
    }
    assert forall|j: int|
        0 <= j < h2.len() && (#[trigger] h2[j]).tx_type is Dispute implies first_deposit(
        h2,
        h2[j].tx,
    ) is Some by {
        assert(h[j].tx_type is Dispute);
        assert(first_deposit(h, h[j].tx) is Some);
        lemma_first_deposit_stable(h, h2, h[j].tx);
    }
    let n = h.len() as int;
    assert forall|i: int| 0 <= i < n implies #[trigger] held_at(h2, i) == held_at(h, i) by {
        assert(h2[i] == h[i]);
        assert(find_disputed(h2, h[i].tx) == find_disputed(h, h[i].tx));
    }
    lemma_held_upto_differs_at(h, h2, n, -1, 0);
    assert(held_at(h2, n) == 0) by {
        assert(find_disputed(h2, t.tx) == find_disputed(h, t.tx));
        lemma_find_disputed_in_range(h, t.tx);
    }
}

/// A lookup yields a place inside the history, and the record there is a
/// deposit with an amount under the identifier that was looked up.
pub proof fn lemma_find_disputed_in_range(h: Seq<Transaction>, tx: u32)
    ensures
        find_disputed(h, tx) matches Some(i) ==> is_first_deposit(h, tx, i) && h[i].disputed
            && has_dispute(h, tx),
        forall|disputed: bool| #[trigger]
            find_deposit(h, tx, disputed) matches Some(i) ==> is_first_deposit(h, tx, i)
                && h[i].disputed == disputed,
{
    lemma_first_deposit_found(h, tx);
}

/// The deposit that a resolve or chargeback of `tx` would act on is part of
/// what an unlocked, consistent account holds.
pub proof fn lemma_disputed_amount_is_held(s: AccountState, tx: u32)
    requires
        s.consistent(),
        !s.locked,
    ensures
        find_disputed(s.history, tx) matches Some(i) ==> {
            &&& 0 <= i < s.history.len()
            &&& s.history[i].amount is Some
            &&& s.history[i].amount.unwrap() <= s.held
        },
{
    lemma_find_disputed_in_range(s.history, tx);
    if let Some(i) = find_disputed(s.history, tx) {
        lemma_held_upto_covers(s.history, s.history.len() as int, i);
        assert(s.history[i].tx == tx);
    }
}

/// An accepted dispute: flagging the first deposit under `t.tx`, which was
/// not disputed, and appending the dispute `t` adds that deposit's amount
/// to the sum of the deposits under dispute.
pub proof fn lemma_dispute_freezes(h: Seq<Transaction>, t: Transaction, m: int)
    requires
        disputes_name_deposits(h),
        t.tx_type is Dispute,
        find_deposit(h, t.tx, false) == Some(m),
    ensures
        0 <= m < h.len(),
        h[m].amount is Some,
        disputes_name_deposits(h.update(m, h[m].with_disputed(true)).push(t)),
        total_under_dispute(h.update(m, h[m].with_disputed(true)).push(t)) == total_under_dispute(
            h,
        ) + h[m].amount.unwrap(),
{
    lemma_find_disputed_in_range(h, t.tx);
    let h1 = h.update(m, h[m].with_disputed(true));
    let h2 = h1.push(t);
    let n = h.len() as int;
    assert(h2[n] == t);
    assert forall|tx: u32| #[trigger] first_deposit(h2, tx) == first_deposit(h, tx) by {
        lemma_first_deposit_stable(h, h2, tx);
    }
    assert(has_dispute(h2, t.tx)) by {
        assert(h2[n].is_dispute_for(t.tx));
    }
    assert(find_disputed(h2, t.tx) == Some(m));
    assert(find_disputed(h, t.tx) is None);
    assert forall|tx: u32| tx != t.tx implies #[trigger] find_disputed(h2, tx) == find_disputed(
        h,
        tx,
    ) by {
        lemma_has_dispute_stable(h, h2, tx);
        lemma_first_deposit_found(h, tx);
        if let Some(i) = first_deposit(h, tx) {
            assert(i != m);
            assert(h2[i] == h[i]);
        }
    }
    assert forall|j: int|
        0 <= j < h2.len() && (#[trigger] h2[j]).tx_type is Dispute implies first_deposit(
        h2,
        h2[j].tx,
    ) is Some by {
        if j < n {
            assert(h[j].tx_type is Dispute);
            assert(h2[j].tx == h[j].tx);
        }
    }
    assert forall|i: int| 0 <= i < n && i != m implies #[trigger] held_at(h2, i) == held_at(
        h,
        i,
    ) by {
        assert(h2[i] == h[i]);
        if h[i].tx != t.tx {
            assert(find_disputed(h2, h[i].tx) == find_disputed(h, h[i].tx));
        }
    }
    assert(held_at(h2, m) == held_at(h, m) + h[m].amount.unwrap());
    lemma_held_upto_differs_at(h, h2, n, m, h[m].amount.unwrap() as int);
    assert(held_at(h2, n) == 0);
}

/// An accepted resolve: clearing the flag of the deposit that the resolve
/// `t` acts on and appending `t` takes that deposit's amount out of the sum
/// of the deposits under dispute.
pub proof fn lemma_resolve_releases(h: Seq<Transaction>, t: Transaction, m: int)
    requires
        disputes_name_deposits(h),
        t.tx_type is Resolve,
        find_disputed(h, t.tx) == Some(m),
    ensures
        0 <= m < h.len(),
        h[m].amount is Some,
        disputes_name_deposits(h.update(m, h[m].with_disputed(false)).push(t)),
        total_under_dispute(h.update(m, h[m].with_disputed(false)).push(t)) == total_under_dispute(
            h,
        ) - h[m].amount.unwrap(),
{
    lemma_find_disputed_in_range(h, t.tx);
    let h1 = h.update(m, h[m].with_disputed(false));
    let h2 = h1.push(t);
    let n = h.len() as int;
    assert(h2[n] == t);
    assert forall|tx: u32| #[trigger] first_deposit(h2, tx) == first_deposit(h, tx) by {
        lemma_first_deposit_stable(h, h2, tx);
    }
    assert forall|tx: u32| #[trigger] has_dispute(h2, tx) == has_dispute(h, tx) by {
        lemma_has_dispute_stable(h, h2, tx);
    }
    assert(find_disputed(h2, t.tx) is None);
    assert forall|tx: u32| tx != t.tx implies #[trigger] find_disputed(h2, tx) == find_disputed(
        h,
        tx,
    ) by {
        lemma_first_deposit_found(h, tx);
        if let Some(i) = first_deposit(h, tx) {
            assert(i != m);
            assert(h2[i] == h[i]);
        }
    }
    assert forall|j: int|
        0 <= j < h2.len() && (#[trigger] h2[j]).tx_type is Dispute implies first_deposit(
        h2,
        h2[j].tx,
    ) is Some by {
        assert(h[j].tx_type is Dispute);
        assert(h2[j].tx == h[j].tx);
    }
    assert forall|i: int| 0 <= i < n && i != m implies #[trigger] held_at(h2, i) == held_at(
        h,
        i,
    ) by {
        assert(h2[i] == h[i]);
        if h[i].tx != t.tx {
            assert(find_disputed(h2, h[i].tx) == find_disputed(h, h[i].tx));
        }
    }
    assert(held_at(h2, m) == held_at(h, m) - h[m].amount.unwrap());
    lemma_held_upto_differs_at(h, h2, n, m, -(h[m].amount.unwrap() as int));
    assert(held_at(h2, n) == 0);
}

/// Every step of the engine on an unlocked, consistent account yields a
/// consistent account. If what the account held was exactly the sum of its
/// deposits under dispute, it is so afterwards.
pub proof fn lemma_step_keeps_consistent(s: AccountState, t: Transaction)
    requires
        s.consistent(),
        !s.locked,
    ensures
        step(s, t).consistent(),
        s.reconciled() ==> step(s, t).reconciled(),
{
    let h = s.history;
    match t.tx_type {
        TransactionKind::Deposit => {
            lemma_append_plain(h, t);
        },
        TransactionKind::Withdrawal => {
            lemma_append_plain(h, t);
        },
        TransactionKind::Dispute => {
            if let Some(m) = find_deposit(h, t.tx, false) {
                lemma_dispute_freezes(h, t, m);
            }
        },
        TransactionKind::Resolve => {
            if let Some(m) = find_disputed(h, t.tx) {
                lemma_resolve_releases(h, t, m);
                lemma_disputed_amount_is_held(s, t.tx);
            }
        },
        TransactionKind::Chargeback => {
            if let Some(m) = find_disputed(h, t.tx) {
                lemma_append_plain(h, t);
                lemma_disputed_amount_is_held(s, t.tx);
            }
        },
    }
}

} // verus!
