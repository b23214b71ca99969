use vstd::prelude::*;

use crate::tile::digit_char;

verus! {

/// Decimal digits of a natural number, most significant first.
pub open spec fn decimal(n: nat) -> Seq<char>
    decreases n,
{
    if n < 10 {
        seq![digit_char(n as u8)]
    } else {
        decimal(n / 10) + seq![digit_char((n % 10) as u8)]
    }
}

/// Relies on the `Display` impl of `u32` (through `ToString::to_string`):
/// the number written in decimal digits, without sign or padding.
#[verifier::external_body]
pub(crate) fn decimal_string(n: u32) -> (r: String)
    ensures
        r@ == decimal(n as nat),
{
    n.to_string()
}

/// A string holding `prefix` followed by the decimal digits of `n`.
pub fn labelled_number(prefix: &str, n: u32) -> (r: String)
    ensures
        r@ == prefix@ + decimal(n as nat),
{
    let mut s = String::from_str(prefix);
    let d = decimal_string(n);
    s.append(d.as_str());
    s
}

} // verus!
