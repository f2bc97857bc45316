//! From the fields of one row of input to the values of a transaction.
//!
//! A row has up to four fields: the kind of the transaction, the client, the
//! transaction's identifier and an amount. A row that cannot be read is
//! rejected as a whole.

use vstd::prelude::*;
use vstd::slice::slice_subrange;
use crate::text::all_digits;
use crate::text::all_zeros;
use crate::text::digit_value;
use crate::text::digits_value;
use crate::text::is_digit;
use crate::text::read_digits;
use crate::text::text_is;
use crate::text::to_chars;
use crate::text::trim;
use crate::text::trimmed;
use crate::transaction::TransactionKind;
use crate::transaction::SCALE;

verus! {

/// The kind that a word names. The five words are written in lower case.
pub open spec fn kind_of(s: Seq<char>) -> Option<TransactionKind> {
    if s == "deposit"@ {
        Some(TransactionKind::Deposit)
    } else if s == "withdrawal"@ {
        Some(TransactionKind::Withdrawal)
    } else if s == "dispute"@ {
        Some(TransactionKind::Dispute)
    } else if s == "resolve"@ {
        Some(TransactionKind::Resolve)
    } else if s == "chargeback"@ {
        Some(TransactionKind::Chargeback)
    } else {
        None
    }
}

/// The number that an identifier's text denotes: one or more decimal digits,
/// which a `+` may precede.
pub open spec fn unsigned_value(s: Seq<char>) -> Option<nat> {
    let digits = if s.len() > 0 && s[0] == '+' {
        s.drop_first()
    } else {
        s
    };
    if digits.len() > 0 && all_digits(digits) {
        Some(digits_value(digits))
    } else {
        None
    }
}

/// How many characters stand before the first decimal point of the text,
/// or in all of it if it has none.
pub open spec fn point_place(s: Seq<char>) -> int
    decreases s.len(),
{
    if s.len() == 0 || s[0] == '.' {
        0
    } else {
        1 + point_place(s.drop_first())
    }
}

/// The text before the first decimal point.
pub open spec fn whole_part(s: Seq<char>) -> Seq<char> {
    s.take(point_place(s))
}

/// The text after the first decimal point; empty if there is no point.
pub open spec fn fraction_part(s: Seq<char>) -> Seq<char> {
    if point_place(s) < s.len() {
        s.skip(point_place(s) + 1)
    } else {
        Seq::empty()
    }
}

/// Whether the digits after a decimal point round up to the next
/// ten-thousandth: they do if the fifth of them is five or more.
pub open spec fn rounds_up(fraction: Seq<char>) -> bool {
    fraction.len() > 4 && fraction[4] >= '5'
}

/// The ten-thousandths that the digits after a decimal point denote, to the
/// nearest: the first four of them count, with zeros in the place of missing
/// ones, and what follows the fourth adds one if it is a half or more.
pub open spec fn fraction_value(fraction: Seq<char>) -> nat {
    digits_value((fraction + seq!['0', '0', '0', '0']).take(4)) + if rounds_up(fraction) {
        1nat
    } else {
        0nat
    }
}

/// The ten-thousandths that an unsigned decimal number denotes: digits, a
/// decimal point among them or not, and at least one digit in all.
pub open spec fn magnitude(s: Seq<char>) -> Option<nat> {
    let whole = whole_part(s);
    let fraction = fraction_part(s);
    if all_digits(whole) && all_digits(fraction) && whole.len() + fraction.len() > 0 {
        Some(digits_value(whole) * SCALE as nat + fraction_value(fraction))
    } else {
        None
    }
}

/// The ten-thousandths that an amount's text denotes, if it is a decimal
/// number that is not negative. A `+` may precede the number; a `-` may
/// precede it only where every digit is zero.
pub open spec fn amount_value(s: Seq<char>) -> Option<nat> {
    if s.len() > 0 && s[0] == '-' {
        let body = s.drop_first();
        if magnitude(body) is Some && all_zeros(whole_part(body)) && all_zeros(
            fraction_part(body),
        ) {
            Some(0)
        } else {
            None
        }
    } else if s.len() > 0 && s[0] == '+' {
        magnitude(s.drop_first())
    } else {
        magnitude(s)
    }
}

/// A number as a value of at most `max`, if it is one.
pub open spec fn within(value: Option<nat>, max: nat) -> Option<nat> {
    match value {
        Some(v) => if v <= max {
            Some(v)
        } else {
            None
        },
        None => None,
    }
}

/// The kind that the field names once the whitespace around it is gone.
pub open spec fn kind_in(field: Seq<char>) -> Option<TransactionKind> {
    kind_of(trimmed(field))
}

/// The client that the field names, if it is a number that sixteen bits hold.
pub open spec fn client_in(field: Seq<char>) -> Option<u16> {
    match within(unsigned_value(trimmed(field)), u16::MAX as nat) {
        Some(v) => Some(v as u16),
        None => None,
    }
}

/// The identifier that the field holds, if it is a number that thirty-two
/// bits hold.
pub open spec fn tx_in(field: Seq<char>) -> Option<u32> {
    match within(unsigned_value(trimmed(field)), u32::MAX as nat) {
        Some(v) => Some(v as u32),
        None => None,
    }
}

/// What the amount field holds. An empty field holds no amount, which is
/// `Some(None)`. Any other field must hold, between whitespace, an amount
/// that sixty-four bits hold, or the field cannot be read, which is `None`.
pub open spec fn amount_in(field: Seq<char>) -> Option<Option<u64>> {
    if field.len() == 0 {
        Some(None)
    } else {
        match within(amount_value(trimmed(field)), u64::MAX as nat) {
            Some(v) => Some(Some(v as u64)),
            None => None,
        }
    }
}

/// What a result says was read.
pub open spec fn read<T>(result: Result<T, ()>) -> Option<T> {
    match result {
        Ok(value) => Some(value),
        Err(_) => None,
    }
}

/// The fields of a row as texts.
pub open spec fn fields_of(record: Seq<String>) -> Seq<Seq<char>> {
    Seq::new(record.len(), |i: int| record[i]@)
}

/// The first field of a row as a kind.
pub open spec fn row_kind(fields: Seq<Seq<char>>) -> Option<TransactionKind> {
    if fields.len() > 0 {
        kind_in(fields[0])
    } else {
        None
    }
}

/// The second field of a row as a client.
pub open spec fn row_client(fields: Seq<Seq<char>>) -> Option<u16> {
    if fields.len() > 1 {
        client_in(fields[1])
    } else {
        None
    }
}

/// The third field of a row as an identifier.
pub open spec fn row_tx(fields: Seq<Seq<char>>) -> Option<u32> {
    if fields.len() > 2 {
        tx_in(fields[2])
    } else {
        None
    }
}

/// The fourth field of a row as an amount; a row without a fourth field
/// holds no amount.
pub open spec fn row_amount(fields: Seq<Seq<char>>) -> Option<Option<u64>> {
    if fields.len() > 3 {
        amount_in(fields[3])
    } else {
        Some(None)
    }
}

/// The values of a row: each field must be readable, and a deposit or a
/// withdrawal must come with an amount.
pub open spec fn row_values(fields: Seq<Seq<char>>) -> Option<
    (TransactionKind, u16, u32, Option<u64>),
> {
    match (row_kind(fields), row_client(fields), row_tx(fields), row_amount(fields)) {
        (Some(kind), Some(client), Some(tx), Some(amount)) => if (kind is Deposit
            || kind is Withdrawal) && amount is None {
            None
        } else {
            Some((kind, client, tx, amount))
        },
        _ => None,
    }
}

/// The place of the first decimal point is where no point stands before.
pub proof fn lemma_point_place_is(s: Seq<char>, p: int)
    requires
        0 <= p <= s.len(),
        forall|j: int| 0 <= j < p ==> #[trigger] s[j] != '.',
        p < s.len() ==> s[p] == '.',
    ensures
        point_place(s) == p,
    decreases p,
{
    if p > 0 {
        let rest = s.drop_first();
        assert forall|j: int| 0 <= j < p - 1 implies #[trigger] rest[j] != '.' by {
            assert(rest[j] == s[j + 1]);
        }
        lemma_point_place_is(rest, p - 1);
    }
}

/// Reads the kind of a transaction from a field.
pub fn parse_kind(field: &str) -> (kind: Option<TransactionKind>)
    ensures
        kind == kind_in(field@),
{
    let chars = to_chars(field);
    let word = trim(chars.as_slice());
    if text_is(word, "deposit") {
        Some(TransactionKind::Deposit)
    } else if text_is(word, "withdrawal") {
        Some(TransactionKind::Withdrawal)
    } else if text_is(word, "dispute") {
        Some(TransactionKind::Dispute)
    } else if text_is(word, "resolve") {
        Some(TransactionKind::Resolve)
    } else if text_is(word, "chargeback") {
        Some(TransactionKind::Chargeback)
    } else {
        None
    }
}

/// Reads a number of at most `max` from a text of digits that a `+` may
/// precede.
pub fn parse_unsigned(text: &[char], max: u64) -> (value: Option<u64>)
    ensures
        value == match within(unsigned_value(text@), max as nat) {
            Some(v) => Some(v as u64),
            None => None,
        },
{
    let digits = if text.len() > 0 && text[0] == '+' {
        slice_subrange(text, 1, text.len())
    } else {
        text
    };
    if digits.len() == 0 {
        return None;
    }
    read_digits(digits, max)
}

/// Reads a client from a field.
pub fn parse_client_id(field: &str) -> (client: Option<u16>)
    ensures
        client == client_in(field@),
{
    let chars = to_chars(field);
    match parse_unsigned(trim(chars.as_slice()), u16::MAX as u64) {
        Some(value) => Some(value as u16),
        None => None,
    }
}

/// Reads a transaction's identifier from a field.
pub fn parse_tx(field: &str) -> (tx: Option<u32>)
    ensures
        tx == tx_in(field@),
{
    let chars = to_chars(field);
    match parse_unsigned(trim(chars.as_slice()), u32::MAX as u64) {
        Some(value) => Some(value as u32),
        None => None,
    }
}

/// Tells whether a text holds digits only, and if so whether all of them
/// are zero.
pub fn digits_are_zero(text: &[char]) -> (zero: Option<bool>)
    ensures
        zero == if all_digits(text@) {
            Some(all_zeros(text@))
        } else {
            None
        },
{
    let mut zero = true;
    let mut i: usize = 0;
    while i < text.len()
        invariant
            i <= text.len(),
            forall|j: int| 0 <= j < i ==> is_digit(#[trigger] text@[j]),
            zero == forall|j: int| 0 <= j < i ==> #[trigger] text@[j] == '0',
        decreases text.len() - i,
    {
        let c = text[i];
        if !('0' <= c && c <= '9') {
            return None;
        }
        if c != '0' {
            zero = false;
        }
        i += 1;
    }
    Some(zero)
}

/// Reads the ten-thousandths that the digits after a decimal point denote,
/// to the nearest.
pub fn read_fraction(fraction: &[char]) -> (value: u64)
    requires
        all_digits(fraction@),
    ensures
        value == fraction_value(fraction@),
        value <= SCALE,
{
    let ghost padded = fraction@ + seq!['0', '0', '0', '0'];
    let mut value: u64 = 0;
    let mut bound: u64 = 1;
    let mut i: usize = 0;
    while i < 4
        invariant
            i <= 4,
            padded == fraction@ + seq!['0', '0', '0', '0'],
            all_digits(fraction@),
            value == digits_value(padded.take(i as int)),
            value < bound,
            bound <= 1 && i == 0 || bound <= 10 && i == 1 || bound <= 100 && i == 2 || bound
                <= 1000 && i == 3 || bound <= 10000 && i == 4,
        decreases 4 - i,
    {
        let digit: u64 = if i < fraction.len() {
            (fraction[i] as u32 - '0' as u32) as u64
        } else {
            0
        };
        proof {
            let next = padded.take(i + 1);
            assert(next.drop_last() =~= padded.take(i as int));
        }
        value = value * 10 + digit;
        bound = bound * 10;
        i += 1;
    }
    if fraction.len() > 4 && fraction[4] >= '5' {
        value += 1;
    }
    value
}

/// Reads an amount from a text: an unsigned decimal number that a `+` may
/// precede, or a zero that a `-` precedes. The result counts ten-thousandths,
/// to the nearest where the number has more than four decimal places, and
/// there is no result where sixty-four bits do not hold it.
pub fn parse_decimal(text: &[char]) -> (amount: Option<u64>)
    ensures
        amount == match within(amount_value(text@), u64::MAX as nat) {
            Some(v) => Some(v as u64),
            None => None,
        },
{
    let negative = text.len() > 0 && text[0] == '-';
    let body = if text.len() > 0 && (text[0] == '-' || text[0] == '+') {
        slice_subrange(text, 1, text.len())
    } else {
        text
    };
    let mut point: usize = 0;
    while point < body.len() && body[point] != '.'
        invariant
            point <= body.len(),
            forall|j: int| 0 <= j < point ==> #[trigger] body@[j] != '.',
        decreases body.len() - point,
    {
        point += 1;
    }
    proof {
        lemma_point_place_is(body@, point as int);
    }
    let whole = slice_subrange(body, 0, point);
    let fraction = if point < body.len() {
        slice_subrange(body, point + 1, body.len())
    } else {
        slice_subrange(body, point, point)
    };
    if whole.len() == 0 && fraction.len() == 0 {
        return None;
    }
    let whole_zero = match digits_are_zero(whole) {
        Some(zero) => zero,
        None => {
            return None;
        },
    };
    let fraction_zero = match digits_are_zero(fraction) {
        Some(zero) => zero,
        None => {
            return None;
        },
    };
    if negative {
        return if whole_zero && fraction_zero {
            Some(0)
        } else {
            None
        };
    }
    let units = match read_digits(whole, u64::MAX / SCALE) {
        Some(units) => units,
        None => {
            return None;
        },
    };
    let part = read_fraction(fraction);
    let total: u128 = units as u128 * SCALE as u128 + part as u128;
    if total > u64::MAX as u128 {
        return None;
    }
    Some(total as u64)
}

/// Reads an amount from a field: an empty field holds none, and any other
/// field must hold a decimal number between whitespace.
pub fn parse_amount(field: &str) -> (amount: Result<Option<u64>, ()>)
    ensures
        read(amount) == amount_in(field@),
{
    let chars = to_chars(field);
    if chars.len() == 0 {
        return Ok(None);
    }
    match parse_decimal(trim(chars.as_slice())) {
        Some(value) => Ok(Some(value)),
        None => Err(()),
    }
}

/// The kind of a row: its first field.
pub fn get_tx_type(record: &Vec<String>) -> (kind: Result<TransactionKind, ()>)
    ensures
        read(kind) == row_kind(fields_of(record@)),
{
    if record.len() > 0 {
        match parse_kind(record[0].as_str()) {
            Some(kind) => Ok(kind),
            None => Err(()),
        }
    } else {
        Err(())
    }
}

/// The client of a row: its second field.
pub fn get_client_id(record: &Vec<String>) -> (client: Result<u16, ()>)
    ensures
        read(client) == row_client(fields_of(record@)),
{
    if record.len() > 1 {
        match parse_client_id(record[1].as_str()) {
            Some(numeric_id) => Ok(numeric_id),
            None => Err(()),
        }
    } else {
        Err(())
    }
}

/// The identifier of a row's transaction: its third field.
pub fn get_tx(record: &Vec<String>) -> (tx: Result<u32, ()>)
    ensures
        read(tx) == row_tx(fields_of(record@)),
{
    if record.len() > 2 {
        match parse_tx(record[2].as_str()) {
            Some(numeric_id) => Ok(numeric_id),
            None => Err(()),
        }
    } else {
        Err(())
    }
}

/// The amount of a row: its fourth field, if there is one and it is not
/// empty.
pub fn get_amount(record: &Vec<String>) -> (amount: Result<Option<u64>, ()>)
    ensures
        read(amount) == row_amount(fields_of(record@)),
{
    if record.len() > 3 {
        parse_amount(record[3].as_str())
    } else {
        Ok(None)
    }
}

/// Reads the values of a transaction from the fields of a row. The row is
/// rejected if one of its fields cannot be read, or if it is a deposit or a
/// withdrawal without an amount.
pub fn process_row(record: &Vec<String>) -> (values: Result<
    (TransactionKind, u16, u32, Option<u64>),
    (),
>)
    ensures
        read(values) == row_values(fields_of(record@)),
{
    let tx_type = match get_tx_type(record) {
        Ok(kind) => kind,
        Err(_) => {
            return Err(());
        },
    };
    let client_id = match get_client_id(record) {
        Ok(client) => client,
        Err(_) => {
            return Err(());
        },
    };
    let tx = match get_tx(record) {
        Ok(tx) => tx,
        Err(_) => {
            return Err(());
        },
    };
    let amount = match get_amount(record) {
        Ok(amount) => amount,
        Err(_) => {
            return Err(());
        },
    };
    let needs_amount = matches!(tx_type, TransactionKind::Deposit | TransactionKind::Withdrawal);
    if needs_amount && amount.is_none() {
        return Err(());
    }
    Ok((tx_type, client_id, tx, amount))
}

} // verus!
