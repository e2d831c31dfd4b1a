//! The character classes and reserved words of the concrete syntax.

use vstd::prelude::*;
use crate::text::chars_of;
use crate::parser::tokens::{Keyword, spec_keyword};

verus! {

/// The character that starts a line comment.
pub const COMMENT: char = '#';

/// Whether `c` starts a line comment.
pub open spec fn spec_is_comment(c: char) -> bool {
    c == '#'
}

/// Whether `c` may be part of an operator.
pub open spec fn spec_is_operator(c: char) -> bool {
    c == '+' || c == '-' || c == '*' || c == '/' || c == '=' || c == '>' || c == '<' || c == '!'
        || c == '&' || c == '|'
}

/// Whether `c` is a delimiter: a reserved character that is a token by
/// itself.
pub open spec fn spec_is_delim(c: char) -> bool {
    c == ';' || c == ':' || c == ',' || c == '(' || c == ')' || c == '{' || c == '}' || c == '['
        || c == ']' || c == '.'
}

/// Whether `c` starts a line comment.
pub fn is_comment(c: char) -> (r: bool)
    ensures
        r == spec_is_comment(c),
{
    c == COMMENT
}

/// Whether `c` may be part of an operator.
pub fn is_operator(c: char) -> (r: bool)
    ensures
        r == spec_is_operator(c),
{
    c == '+' || c == '-' || c == '*' || c == '/' || c == '=' || c == '>' || c == '<' || c == '!'
        || c == '&' || c == '|'
}

/// Whether `s` is a reserved word.
pub fn is_keyword(s: &str) -> (r: bool)
    ensures
        r == spec_keyword(s@).is_some(),
{
    let v = chars_of(s);
    Keyword::lookup(v.as_slice()).is_some()
}

/// Whether `c` is a delimiter.
pub fn is_delim(c: char) -> (r: bool)
    ensures
        r == spec_is_delim(c),
{
    c == ';' || c == ':' || c == ',' || c == '(' || c == ')' || c == '{' || c == '}' || c == '['
        || c == ']' || c == '.'
}

} // verus!
