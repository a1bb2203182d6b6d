//! Decimal rendering of line numbers for the scanner's error messages.
use vstd::prelude::*;
use crate::strutil::string_push;

verus! {

/// The decimal digit character for a value below ten.
pub open spec fn sp_digit(d: int) -> char {
    if d == 0 {
        '0'
    } else if d == 1 {
        '1'
    } else if d == 2 {
        '2'
    } else if d == 3 {
        '3'
    } else if d == 4 {
        '4'
    } else if d == 5 {
        '5'
    } else if d == 6 {
        '6'
    } else if d == 7 {
        '7'
    } else if d == 8 {
        '8'
    } else {
        '9'
    }
}

/// The decimal spelling of a natural number, most significant digit
/// first, with no leading zeroes (a single `'0'` for zero).
pub open spec fn sp_decimal(n: nat) -> Seq<char>
    decreases n,
{
    if n < 10 {
        seq![sp_digit(n as int)]
    } else {
        sp_decimal(n / 10) + seq![sp_digit((n % 10) as int)]
    }
}

/// The decimal digit character for a value below ten.
fn digit_char(d: usize) -> (c: char)
    requires
        d < 10,
    ensures
        c == sp_digit(d as int),
{
    if d == 0 {
        '0'
    } else if d == 1 {
        '1'
    } else if d == 2 {
        '2'
    } else if d == 3 {
        '3'
    } else if d == 4 {
        '4'
    } else if d == 5 {
        '5'
    } else if d == 6 {
        '6'
    } else if d == 7 {
        '7'
    } else if d == 8 {
        '8'
    } else {
        '9'
    }
}

/// Renders a number in decimal, most significant digit first.
pub fn usize_to_string(n: usize) -> (s: String)
    ensures
        s@ == sp_decimal(n as nat),
    decreases n,
{
    if n < 10 {
        let mut s = String::new();
        string_push(&mut s, digit_char(n));
        proof {
            assert(s@ =~= sp_decimal(n as nat));
        }
        s
    } else {
        let mut s = usize_to_string(n / 10);
        string_push(&mut s, digit_char(n % 10));
        proof {
            assert(s@ =~= sp_decimal(n as nat));
        }
        s
    }
}

} // verus!
