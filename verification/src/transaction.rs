//! The events that a ledger is fed with.

use vstd::prelude::*;

verus! {

/// How many ten-thousandths make one unit.
pub const SCALE: u64 = 10_000;

/// What a transaction asks of the account it is addressed to.
#[derive(Clone, Copy, Debug, PartialEq, Eq, Structural)]
pub enum TransactionKind {
    Deposit,
    Withdrawal,
    Dispute,
    Resolve,
    Chargeback,
}

/// One event, as it arrives and as an account keeps it in its history.
///
/// `amount` counts ten-thousandths of a unit. It matters for deposits and
/// withdrawals only. `disputed` is the state of a deposit that sits in a
/// history; a transaction that is read from input arrives with `false`.
#[derive(Clone, Copy, Debug, PartialEq, Eq)]
pub struct Transaction {
    pub tx_type: TransactionKind,
    pub client_id: u16,
    pub tx: u32,
    pub amount: Option<u64>,
    pub disputed: bool,
}

impl Transaction {
    /// The same record with its dispute flag set to `disputed`.
    pub open spec fn with_disputed(self, disputed: bool) -> Transaction {
        Transaction { disputed, ..self }
    }

    /// Whether this is a deposit of some amount under the identifier `tx`:
    /// the only kind of record that a dispute can refer to.
    pub open spec fn is_deposit_for(self, tx: u32) -> bool {
        self.tx == tx && self.tx_type is Deposit && self.amount is Some
    }

    /// Whether this is the record of an accepted dispute on `tx`.
    pub open spec fn is_dispute_for(self, tx: u32) -> bool {
        self.tx == tx && self.tx_type is Dispute
    }
}

} // verus!
