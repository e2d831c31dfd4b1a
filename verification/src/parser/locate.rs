//! Where in the source an error stands: its line and its column.

use vstd::prelude::*;
use crate::parser::error::{Error, SpecError};
use crate::parser::scanner::{byte_offset, width};
use crate::text::{chars_of, string_of};

verus! {

/// The byte offset that a lexical or syntactic error points at, if it
/// points at one: that of the character or of the token it names.
pub open spec fn spec_position(e: SpecError) -> Option<usize> {
    match e {
        SpecError::UnrecognizedToken(_, pos) => Some(pos),
        SpecError::UnexpectedToken(_, tok) => Some(tok.pos),
        SpecError::InvalidType(tok) => Some(tok.pos),
        SpecError::UnterminatedChar(pos) => Some(pos),
        SpecError::UnterminatedString(pos) => Some(pos),
        _ => None,
    }
}

impl Error {
    /// The byte offset that the error points at, if it points at one.
    pub fn position(&self) -> (r: Option<usize>)
        ensures
            r == spec_position(self@),
    {
        match self {
            Error::UnrecognizedToken(_, pos) => Some(*pos),
            Error::UnexpectedToken(_, tok) => Some(tok.pos),
            Error::InvalidType(tok) => Some(tok.pos),
            Error::UnterminatedChar(pos) => Some(*pos),
            Error::UnterminatedString(pos) => Some(*pos),
            _ => None,
        }
    }
}

/// The index of the first character of `src` at or after `i` whose byte
/// offset is at least `pos`, or the length of `src`.
pub open spec fn index_at(src: Seq<char>, pos: nat, i: int) -> int
    decreases src.len() - i,
{
    if 0 <= i < src.len() && byte_offset(src, i) < pos {
        index_at(src, pos, i + 1)
    } else {
        i
    }
}

/// The index at which the line of character `i` starts: after the last
/// line feed before `i`, looking back from `from`.
pub open spec fn line_start(src: Seq<char>, i: int, from: int) -> int
    decreases from,
{
    if 0 < from <= i && from <= src.len() && src[from - 1] != '\n' {
        line_start(src, i, from - 1)
    } else {
        from
    }
}

/// The index at which the line of character `i` ends: that of the first
/// line feed at or after `i`, or the length of `src`.
pub open spec fn line_stop(src: Seq<char>, i: int) -> int
    decreases src.len() - i,
{
    if 0 <= i < src.len() && src[i] != '\n' {
        line_stop(src, i + 1)
    } else {
        i
    }
}

/// A line of the source and a column in it, counted in characters from 0.
pub struct Place {
    pub line: String,
    pub column: usize,
}

/// The model of a [`Place`].
pub ghost struct SpecPlace {
    pub line: Seq<char>,
    pub column: int,
}

impl View for Place {
    type V = SpecPlace;

    open spec fn view(&self) -> SpecPlace {
        SpecPlace { line: self.line@, column: self.column as int }
    }
}

/// The line of the source in which byte `pos` lies, without its line
/// feed, and the column of that byte in the line.
pub open spec fn spec_locate(src: Seq<char>, pos: nat) -> SpecPlace {
    let at = index_at(src, pos, 0);
    let start = line_start(src, at, at);
    SpecPlace { line: src.subrange(start, line_stop(src, at)), column: at - start }
}

/// The line of the source in which byte `pos` lies, and the column of that
/// byte in the line.
pub fn locate(src: &str, pos: usize) -> (r: Place)
    ensures
        r@ == spec_locate(src@, pos as nat),
{
    let chars = chars_of(src);
    let mut at: usize = 0;
    let mut offset: usize = 0;
    while at < chars.len() && offset < pos
        invariant
            0 <= at <= chars.len(),
            offset == byte_offset(chars@, at as int) || (offset >= pos && byte_offset(
                chars@,
                at as int,
            ) >= pos),
            index_at(chars@, pos as nat, at as int) == index_at(chars@, pos as nat, 0),
        decreases chars.len() - at,
    {
        let w = width(chars[at]);
        offset = if offset > usize::MAX - w {
            usize::MAX
        } else {
            offset + w
        };
        at += 1;
    }
    let mut start: usize = at;
    while start > 0 && chars[start - 1] != '\n'
        invariant
            0 <= start <= at <= chars.len(),
            line_start(chars@, at as int, start as int) == line_start(
                chars@,
                at as int,
                at as int,
            ),
        decreases start,
    {
        start -= 1;
    }
    let mut stop: usize = at;
    while stop < chars.len() && chars[stop] != '\n'
        invariant
            at <= stop <= chars.len(),
            line_stop(chars@, stop as int) == line_stop(chars@, at as int),
        decreases chars.len() - stop,
    {
        stop += 1;
    }
    let mut line: Vec<char> = Vec::new();
    let mut i: usize = start;
    while i < stop
        invariant
            start <= i <= stop <= chars.len(),
            line@ == chars@.subrange(start as int, i as int),
        decreases stop - i,
    {
        line.push(chars[i]);
        assert(chars@.subrange(start as int, i as int).push(chars@[i as int]) =~= chars@.subrange(
            start as int,
            i + 1,
        ));
        i += 1;
    }
    Place { line: string_of(line.as_slice()), column: at - start }
}

} // verus!
