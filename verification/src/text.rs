//! Small text helpers: decimal and binary rendering of integers.

use vstd::prelude::*;

verus! {

/// The ASCII character of a decimal digit.
pub open spec fn digit_char(d: nat) -> char {
    ((48 + d) as u32) as char
}

/// Decimal rendering of a natural number, most significant digit first, without leading zeros.
pub open spec fn decimal(n: nat) -> Seq<char>
    decreases n,
{
    if n < 10 {
        seq![digit_char(n)]
    } else {
        decimal(n / 10).push(digit_char(n % 10))
    }
}

fn digit_str(d: u64) -> (s: &'static str)
    requires
        d < 10,
    ensures
        s@ == seq![digit_char(d as nat)],
{
    proof {
        reveal_strlit("0");
        reveal_strlit("1");
        reveal_strlit("2");
        reveal_strlit("3");
        reveal_strlit("4");
        reveal_strlit("5");
        reveal_strlit("6");
        reveal_strlit("7");
        reveal_strlit("8");
        reveal_strlit("9");
    }
    let s = if d == 0 {
        "0"
    } else if d == 1 {
        "1"
    } else if d == 2 {
        "2"
    } else if d == 3 {
        "3"
    } else if d == 4 {
        "4"
    } else if d == 5 {
        "5"
    } else if d == 6 {
        "6"
    } else if d == 7 {
        "7"
    } else if d == 8 {
        "8"
    } else {
        "9"
    };
    assert(s@ =~= seq![digit_char(d as nat)]);
    s
}

/// Renders `n` in decimal, as `format!("{n}")` does.
pub fn decimal_string(n: u64) -> (s: String)
    ensures
        s@ == decimal(n as nat),
    decreases n,
{
    if n < 10 {
        String::from_str(digit_str(n))
    } else {
        let mut s = decimal_string(n / 10);
        s.append(digit_str(n % 10));
        s
    }
}

/// Appends the decimal rendering of `n` to `s`.
pub fn push_decimal(s: &mut String, n: u64)
    ensures
        final(s)@ == old(s)@ + decimal(n as nat),
{
    let d = decimal_string(n);
    s.append(d.as_str());
}

/// Binary rendering of a natural number, most significant digit first, without leading zeros.
pub open spec fn binary(n: nat) -> Seq<char>
    decreases n,
{
    if n < 2 {
        seq![digit_char(n)]
    } else {
        binary(n / 2).push(digit_char(n % 2))
    }
}

/// Renders `n` in binary, as `format!("{n:b}")` does.
pub fn binary_string(n: u64) -> (s: String)
    ensures
        s@ == binary(n as nat),
    decreases n,
{
    if n < 2 {
        String::from_str(digit_str(n))
    } else {
        let mut s = binary_string(n / 2);
        s.append(digit_str(n % 2));
        s
    }
}

} // verus!
