//! The report: one line of text for each account, after a header.

use std::collections::HashMap;
use vstd::prelude::*;
use vstd::std_specs::iter::IteratorSpec;
use vstd::string::StringExecFns;
use crate::account::Account;
use crate::account::AccountState;
use crate::ledger::ledger_view;
use crate::transaction::SCALE;

verus! {

/// The character of a decimal digit.
pub open spec fn digit_char(d: nat) -> char {
    seq!['0', '1', '2', '3', '4', '5', '6', '7', '8', '9'][d as int]
}

/// A number in decimal digits, without leading zeros.
pub open spec fn decimal_text(n: nat) -> Seq<char>
    decreases n,
{
    if n < 10 {
        seq![digit_char(n)]
    } else {
        decimal_text(n / 10).push(digit_char(n % 10))
    }
}

/// A number below ten thousand in four decimal digits.
pub open spec fn four_digits(part: nat) -> Seq<char> {
    seq![
        digit_char(part / 1000),
        digit_char(part / 100 % 10),
        digit_char(part / 10 % 10),
        digit_char(part % 10),
    ]
}

/// An amount of ten-thousandths as units with four decimal places.
pub open spec fn amount_text(v: nat) -> Seq<char> {
    decimal_text(v / (SCALE as nat)) + seq!['.'] + four_digits(v % (SCALE as nat))
}

/// A truth value as a word.
pub open spec fn bool_text(b: bool) -> Seq<char> {
    if b {
        "true"@
    } else {
        "false"@
    }
}

/// The first line of a report: the names of the columns.
pub open spec fn header_text() -> Seq<char> {
    "client,available,held,total,locked"@
}

/// The line of one account: the client, what is available, what is held,
/// the total of the two, and whether the account is locked.
pub open spec fn row_text(client_id: u16, account: AccountState) -> Seq<char> {
    decimal_text(client_id as nat) + seq![','] + amount_text(account.available as nat) + seq![',']
        + amount_text(account.held as nat) + seq![','] + amount_text(
        (account.available + account.held) as nat,
    ) + seq![','] + bool_text(account.locked)
}

/// The text of one digit.
fn digit_text(d: u8) -> (text: &'static str)
    requires
        d < 10,
    ensures
        text@ == seq![digit_char(d as nat)],
{
    proof {
        reveal_strlit("0");
        reveal_strlit("1");
        reveal_strlit("2");
        reveal_strlit("3");
        reveal_strlit("4");
        reveal_strlit("5");
        reveal_strlit("6");
        reveal_strlit("7");
        reveal_strlit("8");
        reveal_strlit("9");
    }
    let text = match d {
        0 => "0",
        1 => "1",
        2 => "2",
        3 => "3",
        4 => "4",
        5 => "5",
        6 => "6",
        7 => "7",
        8 => "8",
        _ => "9",
    };
    text
}

/// Appends a number in decimal digits to a line.
pub fn push_decimal(line: &mut String, n: u128)
    ensures
        final(line)@ == old(line)@ + decimal_text(n as nat),
    decreases n,
{
    if n >= 10 {
        push_decimal(line, n / 10);
    }
    line.append(digit_text((n % 10) as u8));
}

/// Appends an amount to a line: `whole` units and `part` ten-thousandths.
pub fn push_amount(line: &mut String, whole: u128, part: u128)
    requires
        part < SCALE,
    ensures
        final(line)@ == old(line)@ + amount_text((whole * SCALE + part) as nat),
{
    push_decimal(line, whole);
    line.append(".");
    line.append(digit_text((part / 1000) as u8));
    line.append(digit_text((part / 100 % 10) as u8));
    line.append(digit_text((part / 10 % 10) as u8));
    line.append(digit_text((part % 10) as u8));
    proof {
        reveal_strlit(".");
        let v = (whole * SCALE + part) as nat;
        assert(v / (SCALE as nat) == whole && v % (SCALE as nat) == part);
    }
}

/// The line of one account in a report.
pub fn account_row(client_id: u16, account: &Account) -> (line: String)
    ensures
        line@ == row_text(client_id, account@),
{
    let scale = SCALE as u128;
    let mut line = String::new();
    push_decimal(&mut line, client_id as u128);
    line.append(",");
    push_amount(&mut line, account.available / scale, account.available % scale);
    line.append(",");
    push_amount(&mut line, account.held / scale, account.held % scale);
    line.append(",");
    // The total is put together from whole units and parts, each of which
    // fits although the sum of the two balances may not.
    let parts = account.available % scale + account.held % scale;
    push_amount(
        &mut line,
        account.available / scale + account.held / scale + parts / scale,
        parts % scale,
    );
    line.append(",");
    line.append(if account.locked { "true" } else { "false" });
    proof {
        reveal_strlit(",");
    }
    line
}

/// Whether `lines` is a report on `ledger`: the header, then one line for
/// each account. `clients` gives the order of the accounts, which is that
/// of no rule: each client of the ledger stands in it once.
pub open spec fn is_report(
    lines: Seq<Seq<char>>,
    clients: Seq<u16>,
    ledger: Map<u16, AccountState>,
) -> bool {
    &&& lines.len() == clients.len() + 1
    &&& lines[0] == header_text()
    &&& clients.no_duplicates()
    &&& forall|client: u16| ledger.contains_key(client) <==> clients.contains(client)
    &&& forall|i: int|
        0 <= i < clients.len() ==> #[trigger] lines[i + 1] == row_text(
            clients[i],
            ledger[clients[i]],
        )
}

/// The texts of lines.
pub open spec fn texts_of(lines: Seq<String>) -> Seq<Seq<char>> {
    Seq::new(lines.len(), |i: int| lines[i]@)
}

/// Writes the report on a ledger: the header and one line for each account,
/// in an order that is not specified.
pub fn output_accounts(accounts: HashMap<u16, Account>) -> (lines: Vec<String>)
    ensures
        exists|clients: Seq<u16>| is_report(texts_of(lines@), clients, ledger_view(accounts@)),
        lines.len() == accounts@.len() + 1,
{
    let mut lines: Vec<String> = Vec::new();
    lines.push("client,available,held,total,locked".to_string());
    let ghost clients: Seq<u16> = accounts.keys().remaining().unref();
    for client_id in it: accounts.keys()
        invariant
            lines.len() == it.index() + 1,
            lines@[0]@ == header_text(),
            it.seq().unref() == clients,
            clients.to_set() == accounts@.dom(),
            forall|i: int|
                0 <= i < it.index() ==> #[trigger] lines@[i + 1]@ == row_text(
                    clients[i],
                    ledger_view(accounts@)[clients[i]],
                ),
    {
        if let Some(account) = accounts.get(client_id) {
            lines.push(account_row(*client_id, account));
        }
    }
    proof {
        assert forall|client: u16|
            ledger_view(accounts@).contains_key(client) <==> clients.contains(client) by {
            assert(clients.to_set().contains(client) <==> accounts@.dom().contains(client));
        }
        assert(is_report(texts_of(lines@), clients, ledger_view(accounts@)));
    }
    lines
}

} // verus!
