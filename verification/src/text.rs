//! Numbers written out as text, for the diagnostics that the errors carry.

use vstd::prelude::*;
use vstd::string::*;

verus! {

/// The character that stands for the digit `d`, for `d` below sixteen.
pub open spec fn digit(d: nat) -> char {
    "0123456789abcdef"@[d as int]
}

/// `n` in decimal, without sign and without leading zeros.
pub open spec fn decimal(n: nat) -> Seq<char>
    decreases n,
{
    if n < 10 {
        seq![digit(n)]
    } else {
        decimal(n / 10).push(digit(n % 10))
    }
}

/// `n` in lower-case hexadecimal, without prefix and without leading zeros.
pub open spec fn hexadecimal(n: nat) -> Seq<char>
    decreases n,
{
    if n < 16 {
        seq![digit(n)]
    } else {
        hexadecimal(n / 16).push(digit(n % 16))
    }
}

/// `n` in hexadecimal behind the prefix `0x`.
pub open spec fn prefixed_hexadecimal(n: nat) -> Seq<char> {
    "0x"@ + hexadecimal(n)
}

/// The one-character text of a digit.
pub fn digit_text(d: usize) -> (text: &'static str)
    requires
        d < 16,
    ensures
        text@ == seq![digit(d as nat)],
{
    let digits = "0123456789abcdef";
    proof {
        reveal_strlit("0123456789abcdef");
    }
    digits.substring_ascii(d, d + 1)
}

/// Appends `n` in decimal to `text`.
pub fn append_decimal(text: &mut String, n: usize)
    ensures
        final(text)@ == old(text)@ + decimal(n as nat),
    decreases n,
{
    if n >= 10 {
        append_decimal(text, n / 10);
    }
    text.append(digit_text(n % 10));
}

/// Appends `n` in hexadecimal to `text`.
pub fn append_hexadecimal(text: &mut String, n: usize)
    ensures
        final(text)@ == old(text)@ + hexadecimal(n as nat),
    decreases n,
{
    if n >= 16 {
        append_hexadecimal(text, n / 16);
    }
    text.append(digit_text(n % 16));
}

/// Appends `n` in hexadecimal behind the prefix `0x` to `text`.
pub fn append_prefixed_hexadecimal(text: &mut String, n: usize)
    ensures
        final(text)@ == old(text)@ + prefixed_hexadecimal(n as nat),
{
    text.append("0x");
    append_hexadecimal(text, n);
}

} // verus!
