//! Building text one character at a time.

use vstd::prelude::*;

verus! {

/// The character `digit` places after `first`.
pub open spec fn symbol(first: char, digit: int) -> char {
    ((first as u8) + digit) as u8 as char
}

/// Appends one character to a string.
///
/// Trusted: this is `String::push` of the standard library, which vstd does
/// not specify. The contract says what its documentation says: afterwards the
/// string is the old one followed by `c`.
#[verifier::external_body]
pub(crate) fn push_char(text: &mut String, c: char)
    ensures
        final(text)@ == old(text)@.push(c),
{
    text.push(c)
}

/// The character `digit` places after the ASCII character `first`.
pub fn symbol_at(first: char, digit: u8) -> (c: char)
    requires
        (first as u32) + (digit as u32) < 128,
    ensures
        c == symbol(first, digit as int),
        c as u32 == (first as u32) + (digit as u32),
{
    (first as u8 + digit) as char
}

} // verus!
