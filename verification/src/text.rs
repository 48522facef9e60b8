//! Decimal renderings of integers, and conversions between strings and their
//! character sequences.
use vstd::prelude::*;

verus! {

/// The character for a single decimal digit.
pub open spec fn dec_digit_char(d: int) -> char
    recommends
        0 <= d < 10,
{
    ((d + 48) as u8) as char
}

/// The decimal digits of a non-negative integer, most significant first.
pub open spec fn dec_digits(n: int) -> Seq<char>
    recommends
        n >= 0,
    decreases n,
{
    if n < 10 {
        seq![dec_digit_char(n)]
    } else {
        dec_digits(n / 10).push(dec_digit_char(n % 10))
    }
}

/// The decimal rendering of an unsigned 64-bit integer.
pub open spec fn dec_u64(n: u64) -> Seq<char> {
    dec_digits(n as int)
}

/// The decimal rendering of a signed 64-bit integer: a leading '-' for
/// negative values, then the digits of the magnitude.
pub open spec fn dec_i64(n: i64) -> Seq<char> {
    if n >= 0 {
        dec_digits(n as int)
    } else {
        seq!['-'] + dec_digits(-(n as int))
    }
}

/// Relies on std's `Display` for `u64`: it prints the plain decimal digits of
/// the number, nothing else.
#[verifier::external_body]
pub(crate) fn u64_chars(n: u64) -> (r: Vec<char>)
    ensures
        r@ == dec_u64(n),
{
    format!("{}", n).chars().collect()
}

/// Relies on std's `Display` for `i64`: a '-' sign for negative values, then
/// the decimal digits of the magnitude, nothing else.
#[verifier::external_body]
pub(crate) fn i64_chars(n: i64) -> (r: Vec<char>)
    ensures
        r@ == dec_i64(n),
{
    format!("{}", n).chars().collect()
}

/// Relies on `str::chars`: it yields the characters of the string, in order.
#[verifier::external_body]
pub(crate) fn str_to_chars(s: &str) -> (r: Vec<char>)
    ensures
        r@ == s@,
{
    s.chars().collect()
}

/// Relies on `String`'s `FromIterator<char>`: the collected string consists of
/// exactly the given characters, in order.
#[verifier::external_body]
pub(crate) fn chars_to_string(v: &Vec<char>) -> (r: String)
    ensures
        r@ == v@,
{
    v.iter().copied().collect()
}

} // verus!
