//! The names that new samples are given.

use vstd::prelude::*;
use vstd::string::*;

verus! {

/// The character of a decimal digit.
pub open spec fn digit_char(d: nat) -> char {
    (48 + d) as u8 as char
}

/// The decimal numeral of `n`, without leading zeros.
pub open spec fn decimal(n: nat) -> Seq<char>
    decreases n,
{
    if n < 10 {
        seq![digit_char(n)]
    } else {
        decimal(n / 10).push(digit_char(n % 10))
    }
}

/// Appends the decimal numeral of `n` to `text`.
pub fn push_decimal(text: &mut String, n: u128)
    ensures
        final(text)@ == old(text)@ + decimal(n as nat),
    decreases n,
{
    if n >= 10 {
        push_decimal(text, n / 10);
    }
    let digit: u8 = 48u8 + (n % 10) as u8;
    text.push(digit as char);
    assert(final(text)@ =~= old(text)@ + decimal(n as nat));
}

/// `prefix` followed by the decimal numeral of `n`.
pub fn numbered(prefix: &str, n: u128) -> (name: String)
    ensures
        name@ == prefix@ + decimal(n as nat),
{
    let mut name = String::from_str(prefix);
    push_decimal(&mut name, n);
    name
}

} // verus!
