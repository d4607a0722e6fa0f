use crate::text::push_text;
use crate::token::{location_text, LocationView, TokenLocation};
use vstd::prelude::*;

verus! {

/// What can be wrong with a piece of source text.
#[derive(Clone, Copy, Debug, PartialEq, Eq, Structural)]
pub enum LexicalErrorKind {
    /// A block comment that the source ends in.
    UnterminatedComment,
    /// `0x` or `0X` without a hexadecimal digit behind it.
    HexDigitsMissing,
    /// A dot behind a number, without a digit behind the dot.
    FractionDigitsMissing,
    /// `e` or `E` behind a number, followed by neither a sign nor a digit.
    ExponentMalformed,
    /// The sign of an exponent without a digit behind it.
    ExponentDigitsMissing,
    /// A second dot in a number.
    SecondDot,
    /// A dot behind the exponent of a number that has no fraction.
    DotAfterExponent,
    /// A dot behind a hexadecimal number.
    DotAfterHex,
    /// A dot behind an octal number.
    DotAfterOctal,
    /// A second exponent in a number.
    SecondExponent,
    /// An integer literal whose value is greater than `i32::MAX`.
    IntegerOutOfRange,
    /// A character literal that the source ends in.
    UnterminatedChar,
    /// A character literal that holds more than one character.
    CharLength,
    /// A string literal that the source ends in.
    UnterminatedString,
}

/// The message that tells of an error of the given kind.
pub open spec fn kind_message(kind: LexicalErrorKind) -> Seq<char> {
    match kind {
        LexicalErrorKind::UnterminatedComment => "end of file in a comment, */ is expected"@,
        LexicalErrorKind::HexDigitsMissing => "hexadecimal number format error"@,
        LexicalErrorKind::FractionDigitsMissing => "the fraction of a number should be digits"@,
        LexicalErrorKind::ExponentMalformed => "after e / E a number should have + / - or digits"@,
        LexicalErrorKind::ExponentDigitsMissing => "the exponent of a number should be digits"@,
        LexicalErrorKind::SecondDot => "a number can not have more than one dot"@,
        LexicalErrorKind::DotAfterExponent => "the exponent of a number can not have a dot"@,
        LexicalErrorKind::DotAfterHex => "a hexadecimal number can only be an integer"@,
        LexicalErrorKind::DotAfterOctal => "an octal number can only be an integer"@,
        LexicalErrorKind::SecondExponent => "a number can not have more than one e / E"@,
        LexicalErrorKind::IntegerOutOfRange => "the integer literal is out of range"@,
        LexicalErrorKind::UnterminatedChar => "end of file in a char literal, ' is expected"@,
        LexicalErrorKind::CharLength => "a char literal can contain only one character"@,
        LexicalErrorKind::UnterminatedString => "end of file in a string literal, \" is expected"@,
    }
}

/// A lexical error as a mathematical value: what is wrong, and where the scanner stood when it
/// found out.
pub struct ErrorView {
    pub kind: LexicalErrorKind,
    pub location: LocationView,
}

/// The line that reports an error: its location, a space, and its message.
pub open spec fn error_text(error: ErrorView) -> Seq<char> {
    location_text(error.location) + " "@ + kind_message(error.kind)
}

/// A piece of source text that is no token. The scanner reports it and goes on.
#[derive(Debug)]
pub struct LexicalError {
    kind_: LexicalErrorKind,
    location_: TokenLocation,
}

impl View for LexicalError {
    type V = ErrorView;

    closed spec fn view(&self) -> ErrorView {
        ErrorView { kind: self.kind_, location: self.location_@ }
    }
}

impl Clone for LexicalError {
    fn clone(&self) -> (r: Self)
        ensures
            r@ == self@,
    {
        LexicalError { kind_: self.kind_, location_: self.location_.clone() }
    }
}

impl LexicalError {
    pub fn new(kind: LexicalErrorKind, location: TokenLocation) -> (r: Self)
        ensures
            r@ == (ErrorView { kind, location: location@ }),
    {
        LexicalError { kind_: kind, location_: location }
    }

    pub fn get_kind(&self) -> (r: LexicalErrorKind)
        ensures
            r == self@.kind,
    {
        self.kind_
    }

    pub fn get_location(&self) -> (r: TokenLocation)
        ensures
            r@ == self@.location,
    {
        self.location_.clone()
    }

    /// The message of the error, without its location.
    pub fn message(&self) -> (r: String)
        ensures
            r@ == kind_message(self@.kind),
    {
        let message = match self.kind_ {
            LexicalErrorKind::UnterminatedComment => "end of file in a comment, */ is expected",
            LexicalErrorKind::HexDigitsMissing => "hexadecimal number format error",
            LexicalErrorKind::FractionDigitsMissing => "the fraction of a number should be digits",
            LexicalErrorKind::ExponentMalformed => "after e / E a number should have + / - or digits",
            LexicalErrorKind::ExponentDigitsMissing => "the exponent of a number should be digits",
            LexicalErrorKind::SecondDot => "a number can not have more than one dot",
            LexicalErrorKind::DotAfterExponent => "the exponent of a number can not have a dot",
            LexicalErrorKind::DotAfterHex => "a hexadecimal number can only be an integer",
            LexicalErrorKind::DotAfterOctal => "an octal number can only be an integer",
            LexicalErrorKind::SecondExponent => "a number can not have more than one e / E",
            LexicalErrorKind::IntegerOutOfRange => "the integer literal is out of range",
            LexicalErrorKind::UnterminatedChar => "end of file in a char literal, ' is expected",
            LexicalErrorKind::CharLength => "a char literal can contain only one character",
            LexicalErrorKind::UnterminatedString => "end of file in a string literal, \" is expected",
        };
        message.to_string()
    }

    /// `<location> <message>`
    pub fn to_string(&self) -> (r: String)
        ensures
            r@ == error_text(self@),
    {
        let mut out = self.location_.to_string();
        push_text(&mut out, " ");
        let message = self.message();
        push_text(&mut out, message.as_str());
        out
    }
}

} // verus!
