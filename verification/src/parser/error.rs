//! What can go wrong while scanning and parsing.

use vstd::prelude::*;
use crate::parser::tokens::{SpecToken, Token};

verus! {

/// A lexical or syntactic error. The first one met ends the parse.
#[derive(Debug)]
pub enum Error {
    /// A run of digits that is no number of the width asked for; it carries
    /// the digits.
    ParseInt(String),
    /// A character that starts no token, and its byte offset.
    UnrecognizedToken(char, usize),
    /// A description of what was expected, and the token found instead.
    UnexpectedToken(String, Token),
    /// A run of operator characters that spells no operator, or an operator
    /// used in a position that it cannot take.
    InvalidOperator(String),
    /// An integer width that the language does not have.
    InvalidSize(u8),
    /// A token that starts no type.
    InvalidType(Token),
    /// A character literal without its closing quote; the byte offset of
    /// the opening quote.
    UnterminatedChar(usize),
    /// A string literal without its closing quote; the byte offset of the
    /// opening quote.
    UnterminatedString(usize),
    /// A backslash followed by a character that names no escape.
    InvalidEscape(char),
}

/// The model of an [`Error`].
pub ghost enum SpecError {
    ParseInt(Seq<char>),
    UnrecognizedToken(char, usize),
    UnexpectedToken(Seq<char>, SpecToken),
    InvalidOperator(Seq<char>),
    InvalidSize(u8),
    InvalidType(SpecToken),
    UnterminatedChar(usize),
    UnterminatedString(usize),
    InvalidEscape(char),
}

impl View for Error {
    type V = SpecError;

    open spec fn view(&self) -> SpecError {
        match self {
            Error::ParseInt(s) => SpecError::ParseInt(s@),
            Error::UnrecognizedToken(c, p) => SpecError::UnrecognizedToken(*c, *p),
            Error::UnexpectedToken(s, t) => SpecError::UnexpectedToken(s@, t@),
            Error::InvalidOperator(s) => SpecError::InvalidOperator(s@),
            Error::InvalidSize(n) => SpecError::InvalidSize(*n),
            Error::InvalidType(t) => SpecError::InvalidType(t@),
            Error::UnterminatedChar(p) => SpecError::UnterminatedChar(*p),
            Error::UnterminatedString(p) => SpecError::UnterminatedString(*p),
            Error::InvalidEscape(c) => SpecError::InvalidEscape(*c),
        }
    }
}

/// The outcome of a parsing step.
pub type Parse<T> = Result<T, Error>;

} // verus!
