//! Decimal rendering of decoded values.
//!
//! The printable form of a cell shows the decoded value as a base-10
//! numeral. The numeral is specified as a sequence of characters — most
//! significant digit first, a minus sign before the magnitude for negative
//! values — and the executable renderer is proved to produce exactly that
//! sequence.

use vstd::prelude::*;
use vstd::arithmetic::div_mod::{lemma_div_decreases, lemma_mod_bound};

verus! {

/// The character of one decimal digit.
pub open spec fn digit_char(d: nat) -> char {
    if d == 0 {
        '0'
    } else if d == 1 {
        '1'
    } else if d == 2 {
        '2'
    } else if d == 3 {
        '3'
    } else if d == 4 {
        '4'
    } else if d == 5 {
        '5'
    } else if d == 6 {
        '6'
    } else if d == 7 {
        '7'
    } else if d == 8 {
        '8'
    } else {
        '9'
    }
}

/// The decimal numeral of a natural number, most significant digit first,
/// with no leading zeros (zero itself is the single digit `0`).
pub open spec fn decimal_of(v: nat) -> Seq<char>
    decreases v,
    via decimal_of_decreases
{
    if v < 10 {
        seq![digit_char(v)]
    } else {
        decimal_of(v / 10) + seq![digit_char(v % 10)]
    }
}

#[via_fn]
proof fn decimal_of_decreases(v: nat) {
    if v >= 10 {
        lemma_div_decreases(v as int, 10);
    }
}

/// The decimal numeral of an integer: the magnitude's numeral, after a
/// minus sign when the value is negative.
pub open spec fn decimal_int(v: int) -> Seq<char> {
    if v >= 0 {
        decimal_of(v as nat)
    } else {
        seq!['-'] + decimal_of((0 - v) as nat)
    }
}

/// The one-character string of a decimal digit.
fn digit_str(d: u128) -> (r: &'static str)
    requires
        d < 10,
    ensures
        r@ == seq![digit_char(d as nat)],
{
    proof {
        reveal_strlit("0");
        reveal_strlit("1");
        reveal_strlit("2");
        reveal_strlit("3");
        reveal_strlit("4");
        reveal_strlit("5");
        reveal_strlit("6");
        reveal_strlit("7");
        reveal_strlit("8");
        reveal_strlit("9");
    }
    match d {
        0 => "0",
        1 => "1",
        2 => "2",
        3 => "3",
        4 => "4",
        5 => "5",
        6 => "6",
        7 => "7",
        8 => "8",
        _ => "9",
    }
}

/// Renders an unsigned value as its decimal numeral.
pub fn u128_to_decimal(v: u128) -> (r: String)
    ensures
        r@ == decimal_of(v as nat),
    decreases v,
{
    if v < 10 {
        String::from_str(digit_str(v))
    } else {
        proof {
            lemma_div_decreases(v as int, 10);
            lemma_mod_bound(v as int, 10);
        }
        let mut s = u128_to_decimal(v / 10);
        s.append(digit_str(v % 10));
        s
    }
}

/// Renders a signed value as its decimal numeral, minus sign included.
pub fn i128_to_decimal(v: i128) -> (r: String)
    ensures
        r@ == decimal_int(v as int),
{
    if v >= 0 {
        u128_to_decimal(v as u128)
    } else {
        proof {
            reveal_strlit("-");
        }
        let m: u128 = (-(v + 1)) as u128;
        let magnitude = m + 1;
        let mut s = String::from_str("-");
        let digits = u128_to_decimal(magnitude);
        s.append(digits.as_str());
        s
    }
}

} // verus!
