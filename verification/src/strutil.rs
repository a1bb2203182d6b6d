//! Small trusted bridges to `std`: character classification and string
//! building that `vstd` gives no specification for.
use vstd::prelude::*;

verus! {

/// Whether a character counts as alphanumeric under Unicode; the result
/// depends on the character alone.
pub uninterp spec fn unicode_alphanumeric(c: char) -> bool;

/// Whether a character counts as numeric under Unicode; the result
/// depends on the character alone.
pub uninterp spec fn unicode_numeric(c: char) -> bool;

/// Relies on char::is_alphanumeric: the result depends on the character
/// alone.
#[verifier::external_body]
pub fn char_is_alphanumeric(c: char) -> (r: bool)
    ensures
        r == unicode_alphanumeric(c),
{
    c.is_alphanumeric()
}

/// Relies on char::is_numeric: the result depends on the character
/// alone.
#[verifier::external_body]
pub fn char_is_numeric(c: char) -> (r: bool)
    ensures
        r == unicode_numeric(c),
{
    c.is_numeric()
}

/// Relies on String::push: appends one character at the end.
#[verifier::external_body]
pub fn string_push(s: &mut String, c: char)
    ensures
        final(s)@ == old(s)@.push(c),
{
    s.push(c);
}

/// Relies on str::chars: yields the string's characters in order.
#[verifier::external_body]
pub fn chars_of(s: &str) -> (v: Vec<char>)
    ensures
        v@ == s@,
{
    s.chars().collect()
}

} // verus!
