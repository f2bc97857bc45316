use ledger_engine::account::Account;
use ledger_engine::ledger::get_transactions;
use ledger_engine::report::account_row;
use ledger_engine::report::output_accounts;
use ledger_engine::report::push_amount;
use ledger_engine::report::push_decimal;
use std::collections::HashMap;

fn account(available: u128, held: u128, locked: bool) -> Account {
    Account { available, held, locked, transactions: vec![] }
}

fn decimal(n: u128) -> String {
    let mut line = String::from(">");
    push_decimal(&mut line, n);
    line
}

fn amount(whole: u128, part: u128) -> String {
    let mut line = String::from(">");
    push_amount(&mut line, whole, part);
    line
}

#[test]
fn numbers_are_written_without_leading_zeros() {
    assert_eq!(decimal(0), ">0");
    assert_eq!(decimal(7), ">7");
    assert_eq!(decimal(10), ">10");
    assert_eq!(decimal(65535), ">65535");
    assert_eq!(decimal(1_000_000), ">1000000");
    assert_eq!(decimal(u128::MAX), ">340282366920938463463374607431768211455");
}

#[test]
fn amounts_are_written_with_four_decimal_places() {
    assert_eq!(amount(0, 0), ">0.0000");
    assert_eq!(amount(0, 1), ">0.0001");
    assert_eq!(amount(0, 9999), ">0.9999");
    assert_eq!(amount(12, 340), ">12.0340");
    assert_eq!(amount(100, 5000), ">100.5000");
    assert_eq!(amount(70, 6666), ">70.6666");
}

#[test]
fn a_line_holds_client_available_held_total_and_locked() {
    assert_eq!(account_row(1, &account(500_000, 0, false)), "1,50.0000,0.0000,50.0000,false");
    assert_eq!(account_row(2, &account(15_000, 20_001, true)), "2,1.5000,2.0001,3.5001,true");
    assert_eq!(account_row(65535, &account(0, 0, false)), "65535,0.0000,0.0000,0.0000,false");
    assert_eq!(account_row(0, &account(9_999, 1, false)), "0,0.9999,0.0001,1.0000,false");
    assert_eq!(account_row(3, &account(5_555, 5_555, false)), "3,0.5555,0.5555,1.1110,false");
}

#[test]
fn the_total_is_exact_beyond_what_a_balance_can_hold() {
    assert_eq!(
        account_row(1, &account(u128::MAX, u128::MAX, true)),
        "1,34028236692093846346337460743176821.1455,34028236692093846346337460743176821.1455,\
         68056473384187692692674921486353642.2910,true"
    );
}

#[test]
fn a_report_on_an_empty_ledger_is_its_header() {
    assert_eq!(output_accounts(HashMap::new()), vec!["client,available,held,total,locked"]);
}

#[test]
fn a_report_has_one_line_for_each_account() {
    let mut accounts: HashMap<u16, Account> = HashMap::new();
    accounts.insert(1, account(15_000, 0, false));
    accounts.insert(2, account(0, 20_000, true));
    accounts.insert(300, account(1, 2, false));
    let lines = output_accounts(accounts);
    assert_eq!(lines.len(), 4);
    assert_eq!(lines[0], "client,available,held,total,locked");
    let mut rows: Vec<String> = lines[1..].to_vec();
    rows.sort();
    assert_eq!(
        rows,
        vec![
            "1,1.5000,0.0000,1.5000,false",
            "2,0.0000,2.0000,2.0000,true",
            "300,0.0001,0.0002,0.0003,false",
        ]
    );
}

#[test]
fn a_document_is_reported_on() {
    let data = b"type,client,tx,amount\ndeposit,1,1,100.5555\ndeposit,1,2,20.2222\nwithdrawal,1,3,50.1111\n";
    assert_eq!(
        output_accounts(get_transactions(data)),
        vec!["client,available,held,total,locked", "1,70.6666,0.0000,70.6666,false"]
    );
}
