//! Character classes that come from Unicode tables.

use vstd::prelude::*;

verus! {

/// Whether a character has the Unicode property Alphabetic.
pub uninterp spec fn alphabetic(c: char) -> bool;

/// Whether a character has the Unicode property White_Space.
pub uninterp spec fn white_space(c: char) -> bool;

/// Whether a character has the Unicode property XID_Start.
pub uninterp spec fn xid_start(c: char) -> bool;

/// Whether a character has the Unicode property XID_Continue.
pub uninterp spec fn xid_continue(c: char) -> bool;

/// Calls `char::is_alphabetic`, whose result is the Alphabetic property of the character,
/// named [`alphabetic`] here.
#[verifier::external_body]
pub(crate) fn is_alphabetic(c: char) -> (b: bool)
    ensures
        b == alphabetic(c),
{
    c.is_alphabetic()
}

/// Calls `char::is_whitespace`, whose result is the White_Space property of the character,
/// named [`white_space`] here.
#[verifier::external_body]
pub(crate) fn is_unicode_whitespace(c: char) -> (b: bool)
    ensures
        b == white_space(c),
{
    c.is_whitespace()
}

/// `unicode_ident::is_xid_start` looks the character up in the tables of the XID_Start
/// property; its result is named [`xid_start`].
pub assume_specification[ unicode_ident::is_xid_start ](ch: char) -> (b: bool)
    ensures
        b == xid_start(ch),
;

/// `unicode_ident::is_xid_continue` looks the character up in the tables of the
/// XID_Continue property; its result is named [`xid_continue`].
pub assume_specification[ unicode_ident::is_xid_continue ](ch: char) -> (b: bool)
    ensures
        b == xid_continue(ch),
;

/// Whether the character is in the ASCII range.
#[verifier::allow_in_spec]
pub fn is_ascii(c: char) -> bool
    returns
        (c as u32) < 0x80,
{
    (c as u32) < 0x80
}

/// Whether the character is an ASCII letter.
#[verifier::allow_in_spec]
pub fn is_ascii_alphabetic(c: char) -> bool
    returns
        ('a' <= c && c <= 'z') || ('A' <= c && c <= 'Z'),
{
    ('a' <= c && c <= 'z') || ('A' <= c && c <= 'Z')
}

/// Whether the character is an ASCII decimal digit.
#[verifier::allow_in_spec]
pub fn is_digit(c: char) -> bool
    returns
        '0' <= c && c <= '9',
{
    '0' <= c && c <= '9'
}

} // verus!
