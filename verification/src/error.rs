//! The reasons scanning can fail.

use crate::text::{decimal, push_decimal};
use vstd::prelude::*;
use vstd::string::StringExecFns;

verus! {

/// The kinds of failure.
#[derive(Clone, Copy, Debug, PartialEq, Eq, Structural)]
pub enum ErrorKind {
    /// No value where one is needed.
    ExpectedValue,
    /// A character that no rule allows at its place.
    UnexpectedCharacter,
    /// The text ends inside a string.
    UnterminatedString,
    /// A backslash followed by a character that is no escape.
    InvalidEscape,
    /// `\u` not followed by four hexadecimal digits of a scalar value.
    InvalidUnicodeEscape,
    /// A zero followed by another digit of the integer part.
    LeadingZero,
    /// Digits missing after a sign or an exponent marker.
    IncompleteNumber,
    /// An object member that does not start with a string.
    ExpectedStringKey,
    /// A colon, a comma or a closing bracket or brace is missing.
    ExpectedDelimiter,
    /// A comma that no value follows or precedes.
    TrailingOrUnexpectedComma,
}

/// Why a text was rejected, and where: `offset` is the position, counted in
/// characters from the start of the text, at which an expected character is
/// missing or a wrong one stands.
#[derive(Clone, Copy, Debug, PartialEq, Eq, Structural)]
pub struct ParseError {
    pub kind: ErrorKind,
    pub offset: usize,
}

/// The failure of kind `kind` at position `at`.
pub open spec fn failed<T>(kind: ErrorKind, at: int) -> Result<T, ParseError> {
    Err(ParseError { kind, offset: at as usize })
}

/// Fails with `kind` at position `at`.
pub fn fail<T>(kind: ErrorKind, at: usize) -> (r: Result<T, ParseError>)
    ensures
        r == failed::<T>(kind, at as int),
{
    Err(ParseError { kind, offset: at })
}

/// What a kind of failure reads as.
pub open spec fn kind_text(kind: ErrorKind) -> Seq<char> {
    match kind {
        ErrorKind::ExpectedValue => "Expected value"@,
        ErrorKind::UnexpectedCharacter => "Unexpected character"@,
        ErrorKind::UnterminatedString => "Unterminated string"@,
        ErrorKind::InvalidEscape => "Invalid escape"@,
        ErrorKind::InvalidUnicodeEscape => "Invalid unicode escape"@,
        ErrorKind::LeadingZero => "Leading zero"@,
        ErrorKind::IncompleteNumber => "Incomplete number"@,
        ErrorKind::ExpectedStringKey => "Expected string key"@,
        ErrorKind::ExpectedDelimiter => "Expected delimiter"@,
        ErrorKind::TrailingOrUnexpectedComma => "Unexpected ','"@,
    }
}

/// What a failure reads as: its kind, and its offset in decimal digits.
pub open spec fn error_text(e: ParseError) -> Seq<char> {
    kind_text(e.kind) + " at offset "@ + decimal(e.offset as nat)
}

impl ErrorKind {
    /// This kind of failure in words.
    pub fn describe(&self) -> (text: &'static str)
        ensures
            text@ == kind_text(*self),
    {
        match self {
            ErrorKind::ExpectedValue => "Expected value",
            ErrorKind::UnexpectedCharacter => "Unexpected character",
            ErrorKind::UnterminatedString => "Unterminated string",
            ErrorKind::InvalidEscape => "Invalid escape",
            ErrorKind::InvalidUnicodeEscape => "Invalid unicode escape",
            ErrorKind::LeadingZero => "Leading zero",
            ErrorKind::IncompleteNumber => "Incomplete number",
            ErrorKind::ExpectedStringKey => "Expected string key",
            ErrorKind::ExpectedDelimiter => "Expected delimiter",
            ErrorKind::TrailingOrUnexpectedComma => "Unexpected ','",
        }
    }
}

impl ParseError {
    /// This failure in words.
    pub fn message(&self) -> (text: String)
        ensures
            text@ == error_text(*self),
    {
        let mut text = String::from_str(self.kind.describe());
        text.append(" at offset ");
        push_decimal(&mut text, self.offset);
        text
    }
}

} // verus!
