//! Text comparison for keys and names.

use vstd::prelude::*;

verus! {

/// The `==` of std on two string slices: true exactly when both hold the
/// same characters in the same order.
#[verifier::external_body]
pub(crate) fn str_eq(left: &str, right: &str) -> (same: bool)
    ensures
        same == (left@ == right@),
{
    left == right
}

/// The character that writes a single decimal digit.
pub open spec fn digit_char(digit: int) -> char {
    if digit == 0 {
        '0'
    } else if digit == 1 {
        '1'
    } else if digit == 2 {
        '2'
    } else if digit == 3 {
        '3'
    } else if digit == 4 {
        '4'
    } else if digit == 5 {
        '5'
    } else if digit == 6 {
        '6'
    } else if digit == 7 {
        '7'
    } else if digit == 8 {
        '8'
    } else {
        '9'
    }
}

/// A natural number written in decimal, without sign or leading zeros.
pub open spec fn decimal_text(number: nat) -> Seq<char>
    decreases number,
{
    if number < 10 {
        seq![digit_char(number as int)]
    } else {
        decimal_text(number / 10).push(digit_char((number % 10) as int))
    }
}

/// `to_string` of std on a `u64`: the number in decimal, as `Display`
/// writes an unsigned integer.
#[verifier::external_body]
pub(crate) fn decimal(number: u64) -> (text: String)
    ensures
        text@ == decimal_text(number as nat),
{
    number.to_string()
}

} // verus!
