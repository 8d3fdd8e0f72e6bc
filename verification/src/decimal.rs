//! Decimal text of unsigned integers.

use vstd::prelude::*;

verus! {

/// The character for a decimal digit.
pub open spec fn digit(d: nat) -> char
    recommends
        d < 10,
{
    (0x30 + d) as char
}

/// The decimal form of a natural number: no sign, no leading zero, `0` for
/// zero.
pub open spec fn decimal(n: nat) -> Seq<char>
    decreases n,
{
    if n < 10 {
        seq![digit(n)]
    } else {
        decimal(n / 10).push(digit(n % 10))
    }
}

/// The character for the digit `d`.
pub fn digit_char(d: u8) -> (c: char)
    requires
        d < 10,
    ensures
        c == digit(d as nat),
{
    (0x30 + d) as char
}

/// Writes `n` in decimal.
pub fn decimal_text(n: u64) -> (out: String)
    ensures
        out@ == decimal(n as nat),
{
    let mut low_first: Vec<char> = Vec::new();
    let mut rest = n;
    while rest >= 10
        invariant
            decimal(n as nat) == decimal(rest as nat) + low_first@.reverse(),
        decreases rest,
    {
        low_first.push(digit_char((rest % 10) as u8));
        rest = rest / 10;
    }
    low_first.push(digit_char(rest as u8));
    let mut out = String::new();
    let mut left = low_first.len();
    while left > 0
        invariant
            left <= low_first@.len(),
            out@ == low_first@.reverse().take(low_first@.len() - left),
        decreases left,
    {
        left -= 1;
        out.push(low_first[left]);
    }
    out
}

} // verus!
