//! Character classes that drive the scanner's dispatch.

use vstd::prelude::*;

verus! {

/// A decimal digit, `0` through `9`.
pub open spec fn digit_char(c: char) -> bool {
    '0' <= c && c <= '9'
}

/// A letter of the basic Latin alphabet, either case.
pub open spec fn alpha_char(c: char) -> bool {
    ('a' <= c && c <= 'z') || ('A' <= c && c <= 'Z')
}

/// A character that may continue an identifier: a letter or a digit.
pub open spec fn alphanumeric_char(c: char) -> bool {
    alpha_char(c) || digit_char(c)
}

pub fn is_digit(c: char) -> (r: bool)
    ensures
        r == digit_char(c),
{
    '0' <= c && c <= '9'
}

pub fn is_alpha(c: char) -> (r: bool)
    ensures
        r == alpha_char(c),
{
    ('a' <= c && c <= 'z') || ('A' <= c && c <= 'Z')
}

pub fn is_alphanumeric(c: char) -> (r: bool)
    ensures
        r == alphanumeric_char(c),
{
    is_alpha(c) || is_digit(c)
}

} // verus!
