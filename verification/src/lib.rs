//! A ledger of client accounts that is driven by deposits, withdrawals and the
//! dispute, resolve and chargeback steps that may follow a deposit.
//!
//! Amounts are fixed-point numbers: every integer that stands for money counts
//! ten-thousandths of one unit, so `1_0000` is one unit and `5` is `0.0005`.
//!
//! - [`transaction`] and [`account`] hold the data and its model.
//! - [`history`] looks deposits up in an account's history.
//! - [`engine`] applies one transaction to one account.
//! - [`ledger`] keeps one account per client and routes transactions.
//! - [`consistency`] and [`laws`] prove what holds of every run.
//! - [`text`], [`row`] and [`input`] read transactions from a CSV document.
//! - [`report`] writes the accounts out as lines of text.

pub mod account;
pub mod consistency;
pub mod engine;
pub mod history;
pub mod input;
pub mod laws;
pub mod ledger;
pub mod report;
pub mod row;
pub mod text;
pub mod transaction;
