//! What holds of the engine and the ledger whatever they are fed with.

use vstd::prelude::*;
use crate::account::AccountState;
use crate::consistency::lemma_find_disputed_in_range;
use crate::consistency::lemma_first_deposit_stable;
use crate::consistency::lemma_step_keeps_consistent;
use crate::engine::apply;
use crate::engine::run;
use crate::engine::step;
use crate::history::find_deposit;
use crate::history::find_disputed;
use crate::history::first_deposit;
use crate::history::lemma_first_deposit_found;
use crate::ledger::account_of;
use crate::ledger::ledger_run;
use crate::ledger::ledger_step;
use crate::transaction::Transaction;

verus! {

/// Whether the engine accepts the dispute `t` in the state `s`: the first
/// deposit under its identifier is not disputed, and `available` covers it.
pub open spec fn dispute_accepted(s: AccountState, t: Transaction) -> bool {
    find_deposit(s.history, t.tx, false) matches Some(i) && s.history[i].amount.unwrap()
        <= s.available
}

/// Whether the first deposit under `tx` is flagged as disputed.
pub open spec fn under_dispute(history: Seq<Transaction>, tx: u32) -> bool {
    first_deposit(history, tx) matches Some(i) && history[i].disputed
}

/// A transaction is accepted or rejected as a whole: either nothing changes,
/// or the transaction is the one record that the history gains. Records are
/// never removed or reordered, and all that changes in an older one is its
/// dispute flag.
pub proof fn lemma_history_is_append_only(s: AccountState, t: Transaction)
    ensures
        step(s, t) == s || (step(s, t).history.len() == s.history.len() + 1 && step(
            s,
            t,
        ).history.last() == t),
        forall|i: int|
            0 <= i < s.history.len() ==> (#[trigger] step(s, t).history[i]).with_disputed(false)
                == s.history[i].with_disputed(false),
{
    lemma_find_disputed_in_range(s.history, t.tx);
}

/// No step of the engine makes `available` negative.
pub proof fn lemma_available_stays_nonnegative(s: AccountState, t: Transaction)
    requires
        0 <= s.available,
    ensures
        0 <= step(s, t).available,
        0 <= apply(s, t).available,
{
}

/// A consistent account stays consistent, whatever transaction a ledger
/// hands it, and one that holds exactly its deposits under dispute goes on
/// doing so.
pub proof fn lemma_apply_keeps_consistent(s: AccountState, t: Transaction)
    requires
        s.consistent(),
    ensures
        apply(s, t).consistent(),
        s.reconciled() ==> apply(s, t).reconciled(),
{
    if !s.locked {
        lemma_step_keeps_consistent(s, t);
    }
}

/// Every account of the ledger is consistent and holds exactly its deposits
/// under dispute.
pub open spec fn ledger_sound(ledger: Map<u16, AccountState>) -> bool {
    forall|client: u16| #[trigger]
        ledger.contains_key(client) ==> ledger[client].consistent()
            && ledger[client].reconciled()
}

/// One transaction leaves a sound ledger sound.
pub proof fn lemma_ledger_step_keeps_sound(ledger: Map<u16, AccountState>, t: Transaction)
    requires
        ledger_sound(ledger),
    ensures
        ledger_sound(ledger_step(ledger, t)),
{
    lemma_apply_keeps_consistent(account_of(ledger, t.client_id), t);
}

/// Whatever sequence of transactions a sound ledger processes, it is sound
/// afterwards: in each of its accounts no balance is negative, and what an
/// unlocked account holds is the sum of its deposits under dispute.
pub proof fn lemma_ledger_run_keeps_sound(
    ledger: Map<u16, AccountState>,
    transactions: Seq<Transaction>,
)
    requires
        ledger_sound(ledger),
    ensures
        ledger_sound(ledger_run(ledger, transactions)),
    decreases transactions.len(),
{
    if transactions.len() > 0 {
        lemma_ledger_run_keeps_sound(ledger, transactions.drop_last());
        lemma_ledger_step_keeps_sound(
            ledger_run(ledger, transactions.drop_last()),
            transactions.last(),
        );
    }
}

/// Starting from the empty ledger, `available` is never negative: not at the
/// end of a sequence of transactions and not after any of its steps. Neither
/// is `held`.
pub proof fn lemma_available_never_negative(transactions: Seq<Transaction>, n: int, client: u16)
    requires
        0 <= n <= transactions.len(),
        ledger_run(Map::empty(), transactions.take(n)).contains_key(client),
    ensures
        0 <= ledger_run(Map::empty(), transactions.take(n))[client].available,
        0 <= ledger_run(Map::empty(), transactions.take(n))[client].held,
{
    lemma_ledger_run_keeps_sound(Map::empty(), transactions.take(n));
}

/// A withdrawal never takes `available` below zero, and one of more than is
/// available changes nothing: no balance, and no record in the history.
pub proof fn lemma_withdrawal_within_available(s: AccountState, t: Transaction)
    requires
        t.tx_type is Withdrawal,
        0 <= s.available,
    ensures
        0 <= step(s, t).available,
        t.amount matches Some(amount) && amount > s.available ==> step(s, t) == s,
        t.amount is None ==> step(s, t) == s,
{
}

/// A dispute on a deposit that `available` no longer covers is rejected: the
/// state stays as it is.
pub proof fn lemma_dispute_beyond_available(s: AccountState, t: Transaction, i: int)
    requires
        t.tx_type is Dispute,
        first_deposit(s.history, t.tx) == Some(i),
        s.available < s.history[i].amount.unwrap(),
    ensures
        step(s, t) == s,
{
}

/// After an accepted dispute `t`, the deposit it names is the one that a
/// resolve or a chargeback of the same identifier acts on.
pub proof fn lemma_accepted_dispute_is_open(s: AccountState, t: Transaction)
    requires
        t.tx_type is Dispute,
        dispute_accepted(s, t),
    ensures
        find_disputed(step(s, t).history, t.tx) == find_deposit(s.history, t.tx, false),
{
    let h = s.history;
    lemma_find_disputed_in_range(h, t.tx);
    let h2 = step(s, t).history;
    assert(h2[h.len() as int].is_dispute_for(t.tx));
    lemma_first_deposit_stable(h, h2, t.tx);
}

/// A dispute and the resolve that follows it leave the balances as they were
/// before the dispute, and the deposit undisputed, whenever the deposit was
/// not under dispute to begin with. If the dispute was accepted the history
/// is the old one with the two transactions appended; if not, nothing was
/// recorded.
pub proof fn lemma_dispute_then_resolve_restores(
    s: AccountState,
    dispute: Transaction,
    resolve: Transaction,
)
    requires
        dispute.tx_type is Dispute,
        resolve.tx_type is Resolve,
        resolve.tx == dispute.tx,
        !under_dispute(s.history, dispute.tx),
    ensures
        step(step(s, dispute), resolve).available == s.available,
        step(step(s, dispute), resolve).held == s.held,
        step(step(s, dispute), resolve).locked == s.locked,
        !under_dispute(step(step(s, dispute), resolve).history, dispute.tx),
        step(step(s, dispute), resolve).history == if dispute_accepted(s, dispute) {
            s.history.push(dispute).push(resolve)
        } else {
            s.history
        },
{
    let h = s.history;
    lemma_find_disputed_in_range(h, dispute.tx);
    if dispute_accepted(s, dispute) {
        lemma_accepted_dispute_is_open(s, dispute);
        let i = find_deposit(h, dispute.tx, false).unwrap();
        let after = step(step(s, dispute), resolve).history;
        assert(h[i].with_disputed(true).with_disputed(false) == h[i]);
        assert(after =~= h.push(dispute).push(resolve));
        lemma_first_deposit_stable(h, after, dispute.tx);
    }
}

/// A dispute and the chargeback that follows it lock the account, whenever
/// the deposit is under dispute once the dispute is dealt with: because the
/// dispute was accepted, or because an earlier one was. The chargeback
/// leaves `available` as the dispute left it and takes the deposit's amount
/// out of `held`. After an accepted dispute that makes `held` what it was
/// before the dispute.
pub proof fn lemma_dispute_then_chargeback_locks(
    s: AccountState,
    dispute: Transaction,
    chargeback: Transaction,
)
    requires
        dispute.tx_type is Dispute,
        chargeback.tx_type is Chargeback,
        chargeback.tx == dispute.tx,
        dispute_accepted(s, dispute) || find_disputed(s.history, dispute.tx) is Some,
    ensures
        step(step(s, dispute), chargeback).locked,
        step(step(s, dispute), chargeback).available == step(s, dispute).available,
        first_deposit(s.history, dispute.tx) matches Some(i) && step(
            step(s, dispute),
            chargeback,
        ).held == step(s, dispute).held - s.history[i].amount.unwrap(),
        dispute_accepted(s, dispute) ==> step(step(s, dispute), chargeback).held == s.held,
{
    lemma_find_disputed_in_range(s.history, dispute.tx);
    if dispute_accepted(s, dispute) {
        lemma_accepted_dispute_is_open(s, dispute);
    }
}

/// Once an account is locked no transaction changes it: no balance moves and
/// nothing is recorded, however many transactions follow.
pub proof fn lemma_locked_account_is_final(s: AccountState, transactions: Seq<Transaction>)
    requires
        s.locked,
    ensures
        run(s, transactions) == s,
    decreases transactions.len(),
{
    if transactions.len() > 0 {
        lemma_locked_account_is_final(s, transactions.drop_last());
    }
}

/// A transaction for a client whose account is locked leaves the whole
/// ledger as it is.
pub proof fn lemma_locked_account_stops_ledger(ledger: Map<u16, AccountState>, t: Transaction)
    requires
        ledger.contains_key(t.client_id),
        ledger[t.client_id].locked,
    ensures
        ledger_step(ledger, t) == ledger,
{
    assert(ledger_step(ledger, t) =~= ledger);
}

/// Of two disputes on the same identifier in a row, the second has no
/// effect.
pub proof fn lemma_second_dispute_has_no_effect(
    s: AccountState,
    first: Transaction,
    second: Transaction,
)
    requires
        first.tx_type is Dispute,
        second.tx_type is Dispute,
        second.tx == first.tx,
    ensures
        step(step(s, first), second) == step(s, first),
{
    if dispute_accepted(s, first) {
        let h = s.history;
        lemma_find_disputed_in_range(h, first.tx);
        lemma_first_deposit_stable(h, step(s, first).history, first.tx);
    }
}

/// While a deposit is under dispute it stays so until it is resolved: no
/// transaction other than a resolve of its identifier clears the flag.
pub proof fn lemma_dispute_stays_open(s: AccountState, t: Transaction, tx: u32)
    requires
        under_dispute(s.history, tx),
        !(t.tx_type is Resolve && t.tx == tx),
    ensures
        under_dispute(apply(s, t).history, tx),
{
    let h = s.history;
    let h2 = apply(s, t).history;
    lemma_first_deposit_found(h, tx);
    lemma_find_disputed_in_range(h, t.tx);
    let i = first_deposit(h, tx).unwrap();
    if h2 != h {
        lemma_first_deposit_stable(h, h2, tx);
        lemma_first_deposit_found(h, t.tx);
        assert(h2[i].disputed);
    }
}

/// A dispute on a deposit that is under dispute has no effect, whatever was
/// processed since that deposit was disputed, as long as it was not resolved
/// in between.
pub proof fn lemma_repeated_dispute_has_no_effect(
    s: AccountState,
    between: Seq<Transaction>,
    dispute: Transaction,
)
    requires
        under_dispute(s.history, dispute.tx),
        dispute.tx_type is Dispute,
        forall|k: int|
            0 <= k < between.len() ==> !((#[trigger] between[k]).tx_type is Resolve && between[k].tx
                == dispute.tx),
    ensures
        under_dispute(run(s, between).history, dispute.tx),
        apply(run(s, between), dispute) == run(s, between),
    decreases between.len(),
{
    if between.len() > 0 {
        lemma_repeated_dispute_has_no_effect(s, between.drop_last(), dispute);
        lemma_dispute_stays_open(run(s, between.drop_last()), between.last(), dispute.tx);
    }
}

} // verus!
