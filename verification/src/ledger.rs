//! The ledger: one account per client, created when the client is first
//! named, and never removed.

use std::collections::HashMap;
use vstd::prelude::*;
use vstd::std_specs::iter::IteratorSpec;
use crate::account::Account;
use crate::account::AccountState;
use crate::engine::apply;
use crate::engine::transaction_engine;
use crate::input::csv_rows;
use crate::input::transactions_of;
use crate::transaction::Transaction;

verus! {

/// The model of a ledger: the state of each client's account.
pub open spec fn ledger_view(accounts: Map<u16, Account>) -> Map<u16, AccountState> {
    accounts.map_values(|account: Account| account@)
}

/// Every account of the ledger is well-formed.
pub open spec fn ledger_wf(accounts: Map<u16, Account>) -> bool {
    forall|client: u16| #[trigger] accounts.contains_key(client) ==> accounts[client].wf()
}

/// The account that a transaction for `client` meets: the client's own, or a
/// fresh one if the ledger has not seen the client yet.
pub open spec fn account_of(ledger: Map<u16, AccountState>, client: u16) -> AccountState {
    if ledger.contains_key(client) {
        ledger[client]
    } else {
        AccountState::fresh()
    }
}

/// The ledger after one transaction: the account of the transaction's client
/// is there, and it has taken the transaction unless it was locked. No other
/// account is touched.
pub open spec fn ledger_step(ledger: Map<u16, AccountState>, t: Transaction) -> Map<
    u16,
    AccountState,
> {
    ledger.insert(t.client_id, apply(account_of(ledger, t.client_id), t))
}

/// The ledger after a sequence of transactions, taken in order.
pub open spec fn ledger_run(ledger: Map<u16, AccountState>, transactions: Seq<Transaction>) -> Map<
    u16,
    AccountState,
>
    decreases transactions.len(),
{
    if transactions.len() == 0 {
        ledger
    } else {
        ledger_step(ledger_run(ledger, transactions.drop_last()), transactions.last())
    }
}

/// Tells whether every account of the ledger is well-formed. A ledger that
/// was put together by hand can be checked with it before it is handed on.
pub fn is_ledger_well_formed(accounts: &HashMap<u16, Account>) -> (ok: bool)
    ensures
        ok == ledger_wf(accounts@),
{
    let ghost clients: Seq<u16> = accounts.keys().remaining().unref();
    for client_id in it: accounts.keys()
        invariant
            it.seq().unref() == clients,
            clients.to_set() == accounts@.dom(),
            forall|i: int| 0 <= i < it.index() ==> accounts@[#[trigger] clients[i]].wf(),
    {
        if let Some(account) = accounts.get(client_id) {
            if !account.is_well_formed() {
                return false;
            }
        }
    }
    assert forall|client: u16| #[trigger]
        accounts@.contains_key(client) implies accounts@[client].wf() by {
        assert(clients.to_set().contains(client));
    }
    true
}

/// Routes `transaction` to the account of its client, which is created if
/// the ledger does not hold it yet. A locked account is left as it is. No
/// other account is touched, and none is removed.
pub fn process_transaction(transaction: &mut Transaction, accounts: &mut HashMap<u16, Account>)
    requires
        ledger_wf(old(accounts)@),
    ensures
        ledger_view(final(accounts)@) == ledger_step(
            ledger_view(old(accounts)@),
            *old(transaction),
        ),
        final(accounts)@.dom() == old(accounts)@.dom().insert(old(transaction).client_id),
        forall|client: u16|
            client != old(transaction).client_id && old(accounts)@.contains_key(client)
                ==> final(accounts)@[client] == old(accounts)@[client],
        ledger_wf(final(accounts)@),
        *final(transaction) == *old(transaction),
{
    let client_id = transaction.client_id;
    let mut account = match accounts.remove(&client_id) {
        Some(account) => account,
        None => Account::new(),
    };
    if !account.locked {
        transaction_engine(transaction, &mut account);
    }
    accounts.insert(client_id, account);
}

/// Processes `transactions` in order on an empty ledger.
pub fn process_transactions(transactions: Vec<Transaction>) -> (accounts: HashMap<u16, Account>)
    ensures
        ledger_view(accounts@) == ledger_run(Map::empty(), transactions@),
        ledger_wf(accounts@),
{
    let mut accounts: HashMap<u16, Account> = HashMap::new();
    let mut i: usize = 0;
    while i < transactions.len()
        invariant
            i <= transactions.len(),
            ledger_wf(accounts@),
            ledger_view(accounts@) == ledger_run(Map::empty(), transactions@.take(i as int)),
        decreases transactions.len() - i,
    {
        let mut transaction = transactions[i];
        process_transaction(&mut transaction, &mut accounts);
        assert(transactions@.take(i + 1).drop_last() =~= transactions@.take(i as int));
        i += 1;
    }
    assert(transactions@.take(i as int) =~= transactions@);
    accounts
}

/// Processes the transactions that a CSV document lists on an empty ledger.
pub fn get_transactions(data: &[u8]) -> (accounts: HashMap<u16, Account>)
    ensures
        ledger_view(accounts@) == ledger_run(Map::empty(), transactions_of(csv_rows(data@))),
        ledger_wf(accounts@),
{
    process_transactions(crate::input::get_transactions(data))
}

} // verus!
