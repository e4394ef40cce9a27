//! Character classes of the YAML grammar.

use vstd::prelude::*;

verus! {

/// The end-of-stream sentinel.
pub open spec fn spec_is_z(c: char) -> bool {
    c == '\0'
}

/// A line break character.
pub open spec fn spec_is_break(c: char) -> bool {
    c == '\n' || c == '\r'
}

/// A line break or the end of the stream.
pub open spec fn spec_is_breakz(c: char) -> bool {
    spec_is_break(c) || spec_is_z(c)
}

/// A space or a tab.
pub open spec fn spec_is_blank(c: char) -> bool {
    c == ' ' || c == '\t'
}

/// A blank, a line break or the end of the stream.
pub open spec fn spec_is_blankz(c: char) -> bool {
    spec_is_blank(c) || spec_is_breakz(c)
}

/// An ASCII decimal digit.
pub open spec fn spec_is_digit(c: char) -> bool {
    '0' <= c <= '9'
}

/// A digit, an ASCII letter, `_` or `-`.
pub open spec fn spec_is_alpha(c: char) -> bool {
    ('0' <= c <= '9') || ('a' <= c <= 'z') || ('A' <= c <= 'Z') || c == '_' || c == '-'
}

/// A hexadecimal digit of either case.
pub open spec fn spec_is_hex(c: char) -> bool {
    ('0' <= c <= '9') || ('a' <= c <= 'f') || ('A' <= c <= 'F')
}

/// The value of a hexadecimal digit; 0 for any other character.
pub open spec fn spec_as_hex(c: char) -> int {
    if '0' <= c <= '9' {
        c as int - '0' as int
    } else if 'a' <= c <= 'f' {
        c as int - 'a' as int + 10
    } else if 'A' <= c <= 'F' {
        c as int - 'A' as int + 10
    } else {
        0
    }
}

/// One of the flow indicators `,[]{}`.
pub open spec fn spec_is_flow(c: char) -> bool {
    c == ',' || c == '[' || c == ']' || c == '{' || c == '}'
}

/// Check whether the character is nil (`\0`).
#[verifier::when_used_as_spec(spec_is_z)]
pub fn is_z(c: char) -> (r: bool)
    ensures
        r == spec_is_z(c),
{
    c == '\0'
}

/// Check whether the character is a line break (`\r` or `\n`).
#[verifier::when_used_as_spec(spec_is_break)]
pub fn is_break(c: char) -> (r: bool)
    ensures
        r == spec_is_break(c),
{
    c == '\n' || c == '\r'
}

/// Check whether the character is nil or a line break (`\0`, `\r`, `\n`).
#[verifier::when_used_as_spec(spec_is_breakz)]
pub fn is_breakz(c: char) -> (r: bool)
    ensures
        r == spec_is_breakz(c),
{
    is_break(c) || is_z(c)
}

/// Check whether the character is a whitespace (` ` or `\t`).
#[verifier::when_used_as_spec(spec_is_blank)]
pub fn is_blank(c: char) -> (r: bool)
    ensures
        r == spec_is_blank(c),
{
    c == ' ' || c == '\t'
}

/// Check whether the character is nil, a line break or a whitespace.
#[verifier::when_used_as_spec(spec_is_blankz)]
pub fn is_blankz(c: char) -> (r: bool)
    ensures
        r == spec_is_blankz(c),
{
    is_blank(c) || is_breakz(c)
}

/// Check whether the character is an ascii digit.
#[verifier::when_used_as_spec(spec_is_digit)]
pub fn is_digit(c: char) -> (r: bool)
    ensures
        r == spec_is_digit(c),
{
    '0' <= c && c <= '9'
}

/// Check whether the character is a digit, letter, `_` or `-`.
#[verifier::when_used_as_spec(spec_is_alpha)]
pub fn is_alpha(c: char) -> (r: bool)
    ensures
        r == spec_is_alpha(c),
{
    ('0' <= c && c <= '9') || ('a' <= c && c <= 'z') || ('A' <= c && c <= 'Z') || c == '_' || c
        == '-'
}

/// Check whether the character is a hexadecimal character (case insensitive).
#[verifier::when_used_as_spec(spec_is_hex)]
pub fn is_hex(c: char) -> (r: bool)
    ensures
        r == spec_is_hex(c),
{
    ('0' <= c && c <= '9') || ('a' <= c && c <= 'f') || ('A' <= c && c <= 'F')
}

/// Convert the hexadecimal digit to an integer.
pub fn as_hex(c: char) -> (r: u32)
    requires
        spec_is_hex(c),
    ensures
        r == spec_as_hex(c),
        r < 16,
{
    if '0' <= c && c <= '9' {
        (c as u32) - ('0' as u32)
    } else if 'a' <= c && c <= 'f' {
        (c as u32) - ('a' as u32) + 10
    } else {
        (c as u32) - ('A' as u32) + 10
    }
}

/// Check whether the character is a YAML flow character (one of `,[]{}`).
#[verifier::when_used_as_spec(spec_is_flow)]
pub fn is_flow(c: char) -> (r: bool)
    ensures
        r == spec_is_flow(c),
{
    c == ',' || c == '[' || c == ']' || c == '{' || c == '}'
}

/// A set of characters that a run of the input is made of. None holds the
/// end-of-stream sentinel.
#[derive(Clone, Copy, PartialEq, Eq, Debug, Structural)]
pub enum CharClass {
    /// A space or a tab.
    Blank,
    /// A space.
    Space,
    /// Anything but a line break or the end of the stream.
    Line,
    /// A digit, an ASCII letter, `_` or `-`.
    Alpha,
    /// What an anchor name is made of: `Alpha`, or `:`.
    Anchor,
}

impl CharClass {
    pub open spec fn spec_has(self, c: char) -> bool {
        match self {
            CharClass::Blank => spec_is_blank(c),
            CharClass::Space => c == ' ',
            CharClass::Line => !spec_is_breakz(c),
            CharClass::Alpha => spec_is_alpha(c),
            CharClass::Anchor => spec_is_alpha(c) || c == ':',
        }
    }

    /// Whether the character belongs to the class.
    #[verifier::when_used_as_spec(spec_has)]
    pub fn has(self, c: char) -> (r: bool)
        ensures
            r == self.spec_has(c),
            r ==> c != '\0',
    {
        match self {
            CharClass::Blank => is_blank(c),
            CharClass::Space => c == ' ',
            CharClass::Line => !is_breakz(c),
            CharClass::Alpha => is_alpha(c),
            CharClass::Anchor => is_alpha(c) || c == ':',
        }
    }
}

} // verus!
