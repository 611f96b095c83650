use crate::account::Account;
use vstd::prelude::*;

verus! {

/// `String::push` appends the given character to the end of the string and
/// leaves what was there before in place. Taken from the documentation of std;
/// nothing here proves it.
pub assume_specification[ String::push ](text: &mut String, ch: char)
    ensures
        final(text)@ == old(text)@.push(ch),
;

/// The ten decimal digits, by value.
pub open spec fn digits() -> Seq<char> {
    seq!['0', '1', '2', '3', '4', '5', '6', '7', '8', '9']
}

/// The decimal notation of `n`: no sign, no leading zero, `"0"` for zero.
pub open spec fn decimal(n: nat) -> Seq<char>
    decreases n,
{
    if n < 10 {
        seq![digits()[n as int]]
    } else {
        decimal(n / 10).push(digits()[(n % 10) as int])
    }
}

/// An amount of 1/10,000ths written in units: the whole units in decimal, a
/// point, and the four decimal places.
pub open spec fn fixed_point(amount: u32) -> Seq<char> {
    decimal((amount / 10_000) as nat) + seq![
        '.',
        digits()[(amount / 1_000 % 10) as int],
        digits()[(amount / 100 % 10) as int],
        digits()[(amount / 10 % 10) as int],
        digits()[(amount % 10) as int],
    ]
}

/// One line of the final table: an account with its amounts written out.
#[derive(Debug, PartialEq, Eq)]
pub struct CsvRow {
    pub client: u16,
    pub available: String,
    pub held: String,
    pub total: String,
    pub locked: bool,
}

fn digit(value: u32) -> (ch: char)
    requires
        value < 10,
    ensures
        ch == digits()[value as int],
{
    match value {
        0 => '0',
        1 => '1',
        2 => '2',
        3 => '3',
        4 => '4',
        5 => '5',
        6 => '6',
        7 => '7',
        8 => '8',
        _ => '9',
    }
}

fn push_decimal(text: &mut String, n: u32)
    ensures
        final(text)@ == old(text)@ + decimal(n as nat),
    decreases n,
{
    if n >= 10 {
        push_decimal(text, n / 10);
    }
    text.push(digit(n % 10));
    proof {
        assert(text@ =~= old(text)@ + decimal(n as nat));
    }
}

/// Writes an amount with exactly four decimal places: `15000` is `"1.5000"`.
pub fn format_amount(amount: u32) -> (text: String)
    ensures
        text@ == fixed_point(amount),
        text@.len() >= 6,
        text@[text@.len() - 5] == '.',
{
    let mut text = String::new();
    push_decimal(&mut text, amount / 10_000);
    text.push('.');
    text.push(digit(amount / 1_000 % 10));
    text.push(digit(amount / 100 % 10));
    text.push(digit(amount / 10 % 10));
    text.push(digit(amount % 10));
    proof {
        lemma_decimal_is_not_empty((amount / 10_000) as nat);
        assert(text@ =~= fixed_point(amount));
    }
    text
}

/// Every number takes at least one digit.
pub proof fn lemma_decimal_is_not_empty(n: nat)
    ensures
        decimal(n).len() >= 1,
    decreases n,
{
    if n >= 10 {
        lemma_decimal_is_not_empty(n / 10);
    }
}

impl CsvRow {
    /// The account's line: client and lock as they are, each amount with four decimals.
    pub fn from_account(acc: Account) -> (row: CsvRow)
        ensures
            row.client == acc.client,
            row.available@ == fixed_point(acc.available),
            row.held@ == fixed_point(acc.held),
            row.total@ == fixed_point(acc.total),
            row.locked == acc.locked,
    {
        CsvRow {
            client: acc.client,
            available: format_amount(acc.available),
            held: format_amount(acc.held),
            total: format_amount(acc.total),
            locked: acc.locked,
        }
    }
}

} // verus!
