//! What the library needs of texts: comparing two of them, and writing a
//! number behind a name.

use vstd::prelude::*;

verus! {

/// `==` on `str` compares the two texts character by character.
pub assume_specification[ <str as PartialEq>::eq ](a: &str, b: &str) -> (same: bool)
    ensures
        same == (a@ == b@),
;

/// The character of one decimal digit.
pub open spec fn digit(d: nat) -> char
    recommends
        d < 10,
{
    (('0' as u8) + d) as u8 as char
}

/// `n` written in decimal digits, without leading zeros.
pub open spec fn decimal(n: nat) -> Seq<char>
    decreases n,
{
    if n < 10 {
        seq![digit(n)]
    } else {
        decimal(n / 10).push(digit(n % 10))
    }
}

/// `format!` of a text and an unsigned number, one behind the other: the
/// text, then the number in decimal digits.
#[verifier::external_body]
pub(crate) fn numbered(name: &str, number: usize) -> (text: String)
    ensures
        text@ == name@ + decimal(number as nat),
{
    format!("{name}{number}")
}

} // verus!
