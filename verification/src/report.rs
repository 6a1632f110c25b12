//! The words in which a failed delivery is reported.

use vstd::prelude::*;
use vstd::string::*;

verus! {

/// The text of one decimal digit.
pub open spec fn digit_text(digit: nat) -> Seq<char> {
    if digit == 0 {
        "0"@
    } else if digit == 1 {
        "1"@
    } else if digit == 2 {
        "2"@
    } else if digit == 3 {
        "3"@
    } else if digit == 4 {
        "4"@
    } else if digit == 5 {
        "5"@
    } else if digit == 6 {
        "6"@
    } else if digit == 7 {
        "7"@
    } else if digit == 8 {
        "8"@
    } else {
        "9"@
    }
}

/// A natural number in decimal, without leading zeros.
pub open spec fn digits_of(n: nat) -> Seq<char>
    decreases n,
{
    if n < 10 {
        digit_text(n)
    } else {
        digits_of(n / 10) + digit_text(n % 10)
    }
}

/// An integer in decimal, with a minus sign before a negative one.
pub open spec fn decimal_of(i: int) -> Seq<char> {
    if i < 0 {
        "-"@ + digits_of((-i) as nat)
    } else {
        digits_of(i as nat)
    }
}

/// The report of a transfer command that ran and failed: the program and
/// the code it exited with.
pub open spec fn failure_text_of(program: Seq<char>, code: int) -> Seq<char> {
    "Command "@ + program + " failed with exit code "@ + decimal_of(code)
}

/// The text of the digit `d`.
fn digit(d: u64) -> (text: &'static str)
    requires
        d < 10,
    ensures
        text@ == digit_text(d as nat),
{
    if d == 0 {
        "0"
    } else if d == 1 {
        "1"
    } else if d == 2 {
        "2"
    } else if d == 3 {
        "3"
    } else if d == 4 {
        "4"
    } else if d == 5 {
        "5"
    } else if d == 6 {
        "6"
    } else if d == 7 {
        "7"
    } else if d == 8 {
        "8"
    } else {
        "9"
    }
}

/// Appends `n` in decimal to `text`.
fn push_digits(text: &mut String, n: u64)
    ensures
        final(text)@ == old(text)@ + digits_of(n as nat),
    decreases n,
{
    if n >= 10 {
        push_digits(text, n / 10);
    }
    text.append(digit(n % 10));
    assert(text@ =~= old(text)@ + digits_of(n as nat));
}

/// Writes `i` in decimal.
pub fn decimal(i: i32) -> (text: String)
    ensures
        text@ == decimal_of(i as int),
{
    let mut text = String::new();
    if i < 0 {
        text.append("-");
        let magnitude: u64 = (-(i as i64)) as u64;
        push_digits(&mut text, magnitude);
    } else {
        push_digits(&mut text, i as u64);
    }
    assert(text@ =~= decimal_of(i as int));
    text
}

/// Reports a transfer command that ran and failed:
/// `Command <program> failed with exit code <code>`.
pub fn failure_text(program: &str, code: i32) -> (text: String)
    ensures
        text@ == failure_text_of(program@, code as int),
{
    let mut text = String::from_str("Command ");
    text.append(program);
    text.append(" failed with exit code ");
    let number = decimal(code);
    text.append(number.as_str());
    text
}

} // verus!
