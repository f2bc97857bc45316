//! From the bytes of a CSV document to the transactions it lists.
//!
//! The document is split into rows by the `csv` crate. What that crate makes
//! of given bytes is not proved here: it is named, and the contracts say what
//! this library does with the rows, whatever they are.

use vstd::prelude::*;
use crate::row::fields_of;
use crate::row::process_row;
use crate::row::row_values;
use crate::transaction::Transaction;

verus! {

/// `csv::Reader`, the reader of a CSV document. Nothing of its inside is
/// known here.
#[verifier::external_type_specification]
#[verifier::external_body]
#[verifier::reject_recursive_types(R)]
pub struct ExReader<R>(csv::Reader<R>);

/// `csv::Error`, what the reader yields in place of a row that it cannot
/// deliver.
#[verifier::external_type_specification]
#[verifier::external_body]
pub struct ExError(csv::Error);

/// The rows that `csv` reads from a document of these bytes with its default
/// settings, the first row taken as a header and left out. A row is the
/// sequence of its fields; `None` stands where the reader reports an error
/// in place of a row.
pub uninterp spec fn csv_rows(data: Seq<u8>) -> Seq<Option<Seq<Seq<char>>>>;

/// The rows that a reader has not yielded yet, in the order in which it
/// will yield them.
pub uninterp spec fn unread_rows(reader: csv::Reader<&[u8]>) -> Seq<Option<Seq<Seq<char>>>>;

/// Calls `csv::Reader::from_reader`: a reader with the default settings over
/// bytes in memory. The contract names the rows that it will yield.
#[verifier::external_body]
fn open_reader<'a>(data: &'a [u8]) -> (reader: csv::Reader<&'a [u8]>)
    ensures
        unread_rows(reader) == csv_rows(data@),
{
    csv::Reader::from_reader(data)
}

/// Calls `csv::Reader::records` and takes the next item of the iterator it
/// returns. The contract claims that the reader yields its unread rows one
/// by one and then ends: a row comes as its fields, an error comes where the
/// name holds `None`, and after the last row there is nothing.
#[verifier::external_body]
fn next_record(reader: &mut csv::Reader<&[u8]>) -> (next: Option<Result<Vec<String>, csv::Error>>)
    ensures
        unread_rows(*old(reader)).len() == 0 ==> next is None && unread_rows(*final(reader))
            == unread_rows(*old(reader)),
        unread_rows(*old(reader)).len() > 0 ==> next is Some && unread_rows(*final(reader))
            == unread_rows(*old(reader)).drop_first(),
        next matches Some(Ok(record)) ==> unread_rows(*old(reader))[0] == Some(
            fields_of(record@),
        ),
        next matches Some(Err(_)) ==> unread_rows(*old(reader))[0] is None,
{
    match reader.records().next() {
        Some(Ok(record)) => Some(Ok(record.iter().map(String::from).collect())),
        Some(Err(error)) => Some(Err(error)),
        None => None,
    }
}

/// The transaction that a row stands for, if the row can be read. It
/// arrives undisputed.
pub open spec fn row_transaction(row: Option<Seq<Seq<char>>>) -> Option<Transaction> {
    match row {
        Some(fields) => match row_values(fields) {
            Some((tx_type, client_id, tx, amount)) => Some(
                Transaction { tx_type, client_id, tx, amount, disputed: false },
            ),
            None => None,
        },
        None => None,
    }
}

/// The transactions that rows stand for, in the order of the rows. A row
/// that cannot be read is skipped.
pub open spec fn transactions_of(rows: Seq<Option<Seq<Seq<char>>>>) -> Seq<Transaction>
    decreases rows.len(),
{
    if rows.len() == 0 {
        Seq::empty()
    } else {
        match row_transaction(rows[0]) {
            Some(transaction) => seq![transaction] + transactions_of(rows.drop_first()),
            None => transactions_of(rows.drop_first()),
        }
    }
}

/// Reads the transaction of one row.
pub fn read_transaction(record: &Vec<String>) -> (transaction: Option<Transaction>)
    ensures
        transaction == row_transaction(Some(fields_of(record@))),
{
    match process_row(record) {
        Ok((tx_type, client_id, tx, amount)) => Some(
            Transaction { tx_type, client_id, tx, amount, disputed: false },
        ),
        Err(_) => None,
    }
}

/// Reads the transactions that a CSV document lists, in its order. Rows
/// that cannot be read are skipped, and so is the header.
pub fn get_transactions(data: &[u8]) -> (transactions: Vec<Transaction>)
    ensures
        transactions@ == transactions_of(csv_rows(data@)),
{
    let mut rdr = open_reader(data);
    let mut transactions: Vec<Transaction> = Vec::new();
    loop
        invariant
            transactions@ + transactions_of(unread_rows(rdr)) == transactions_of(csv_rows(data@)),
        ensures
            transactions@ == transactions_of(csv_rows(data@)),
        decreases unread_rows(rdr).len(),
    {
        let ghost before = transactions@;
        let ghost rows = unread_rows(rdr);
        match next_record(&mut rdr) {
            Some(Ok(rcd)) => {
                match read_transaction(&rcd) {
                    Some(transaction) => {
                        transactions.push(transaction);
                        assert(transactions@ + transactions_of(rows.drop_first()) =~= before
                            + transactions_of(rows));
                    },
                    None => {},
                }
            },
            Some(Err(_)) => {},
            None => {
                break ;
            },
        }
    }
    transactions
}

} // verus!
