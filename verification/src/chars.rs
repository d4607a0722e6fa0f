use vstd::prelude::*;

verus! {

/// The character that stands for "no more input". No byte of a source maps to it.
pub const END_OF_INPUT: char = '\u{10FFFF}';

pub open spec fn spec_is_digit(c: char) -> bool {
    '0' <= c && c <= '9'
}

pub open spec fn spec_is_octal_digit(c: char) -> bool {
    '0' <= c && c <= '7'
}

pub open spec fn spec_is_hex_digit(c: char) -> bool {
    ('0' <= c && c <= '9') || ('a' <= c && c <= 'f') || ('A' <= c && c <= 'F')
}

pub open spec fn spec_is_alphabetic(c: char) -> bool {
    ('a' <= c && c <= 'z') || ('A' <= c && c <= 'Z')
}

pub open spec fn spec_is_alphanumeric(c: char) -> bool {
    spec_is_alphabetic(c) || spec_is_digit(c)
}

/// Space, horizontal tab, line feed, form feed and carriage return.
pub open spec fn spec_is_whitespace(c: char) -> bool {
    c == ' ' || c == '\t' || c == '\n' || c == '\x0C' || c == '\r'
}

#[verifier::when_used_as_spec(spec_is_digit)]
pub fn is_digit(c: char) -> (r: bool)
    ensures
        r == spec_is_digit(c),
{
    '0' <= c && c <= '9'
}

#[verifier::when_used_as_spec(spec_is_octal_digit)]
pub fn is_octal_digit(c: char) -> (r: bool)
    ensures
        r == spec_is_octal_digit(c),
{
    '0' <= c && c <= '7'
}

#[verifier::when_used_as_spec(spec_is_hex_digit)]
pub fn is_hex_digit(c: char) -> (r: bool)
    ensures
        r == spec_is_hex_digit(c),
{
    ('0' <= c && c <= '9') || ('a' <= c && c <= 'f') || ('A' <= c && c <= 'F')
}

#[verifier::when_used_as_spec(spec_is_alphabetic)]
pub fn is_alphabetic(c: char) -> (r: bool)
    ensures
        r == spec_is_alphabetic(c),
{
    ('a' <= c && c <= 'z') || ('A' <= c && c <= 'Z')
}

#[verifier::when_used_as_spec(spec_is_alphanumeric)]
pub fn is_alphanumeric(c: char) -> (r: bool)
    ensures
        r == spec_is_alphanumeric(c),
{
    is_alphabetic(c) || is_digit(c)
}

#[verifier::when_used_as_spec(spec_is_whitespace)]
pub fn is_whitespace(c: char) -> (r: bool)
    ensures
        r == spec_is_whitespace(c),
{
    c == ' ' || c == '\t' || c == '\n' || c == '\x0C' || c == '\r'
}

/// A set of characters that a maximal run of the source is taken from.
#[derive(Clone, Copy, Debug, PartialEq, Eq, Structural)]
pub enum CharClass {
    /// Blank characters between tokens.
    Whitespace,
    /// `0` to `9`.
    Digit,
    /// `0` to `9`, `a` to `f`, `A` to `F`.
    HexDigit,
    /// `0` to `7`.
    OctalDigit,
    /// Letters, digits and the underscore: what an identifier continues with.
    Word,
    /// Everything but the line feed: what a line comment runs over.
    LineBody,
}

impl CharClass {
    pub open spec fn spec_contains(self, c: char) -> bool {
        match self {
            CharClass::Whitespace => spec_is_whitespace(c),
            CharClass::Digit => spec_is_digit(c),
            CharClass::HexDigit => spec_is_hex_digit(c),
            CharClass::OctalDigit => spec_is_octal_digit(c),
            CharClass::Word => spec_is_alphanumeric(c) || c == '_',
            CharClass::LineBody => c != '\n',
        }
    }

    #[verifier::when_used_as_spec(spec_contains)]
    pub fn contains(self, c: char) -> (r: bool)
        ensures
            r == self.spec_contains(c),
    {
        match self {
            CharClass::Whitespace => is_whitespace(c),
            CharClass::Digit => is_digit(c),
            CharClass::HexDigit => is_hex_digit(c),
            CharClass::OctalDigit => is_octal_digit(c),
            CharClass::Word => is_alphanumeric(c) || c == '_',
            CharClass::LineBody => c != '\n',
        }
    }
}

} // verus!
