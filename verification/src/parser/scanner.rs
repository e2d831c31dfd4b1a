//! The scanner: from source text to tokens, one at a time.

use vstd::prelude::*;
use vstd::utf8::{encode_scalar, encode_utf8};
use crate::text::{
    chars_of, is_letter, is_numeral, is_space, letter, numeral, parse_decimal, space,
    spec_parse_decimal, string_of,
};
use crate::parser::constants::{
    is_comment, is_delim, is_operator, spec_is_comment, spec_is_delim, spec_is_operator,
};
use crate::parser::error::{Error, Parse, SpecError};
use crate::parser::tokens::{
    spec_keyword, Keyword, Literal, SpecLiteral, SpecToken, SpecTokenType, Token, TokenType,
};

verus! {

/// The number of bytes that `c` takes in UTF-8.
pub open spec fn utf8_width(c: char) -> nat {
    if (c as u32) < 0x80 {
        1
    } else if (c as u32) < 0x800 {
        2
    } else if (c as u32) < 0x10000 {
        3
    } else {
        4
    }
}

/// The byte offset, in the UTF-8 text of `src`, of its character `i`.
pub open spec fn byte_offset(src: Seq<char>, i: int) -> nat
    decreases i,
{
    if i <= 0 {
        0
    } else {
        byte_offset(src, i - 1) + utf8_width(src[i - 1])
    }
}

/// The classes of character that make up a token of several characters.
#[derive(Clone, Copy)]
pub enum Run {
    /// The digits of a number.
    Digits,
    /// The characters of a name or keyword after the first.
    Word,
    /// The characters of an operator.
    Operator,
}

/// Whether `c` belongs to the class `run`.
pub open spec fn in_run(run: Run, c: char) -> bool {
    match run {
        Run::Digits => numeral(c),
        Run::Word => letter(c) || numeral(c) || c == '_',
        Run::Operator => spec_is_operator(c),
    }
}

/// The index after the longest run of characters of class `run` that
/// starts at `i`.
pub open spec fn run_end(src: Seq<char>, i: int, run: Run) -> int
    decreases src.len() - i,
{
    if 0 <= i < src.len() && in_run(run, src[i]) {
        run_end(src, i + 1, run)
    } else {
        i
    }
}

/// The index of the first character at or after `i` that is not whitespace.
pub open spec fn skip_whitespace(src: Seq<char>, i: int) -> int
    decreases src.len() - i,
{
    if 0 <= i < src.len() && space(src[i]) {
        skip_whitespace(src, i + 1)
    } else {
        i
    }
}

/// The index of the first line feed at or after `i`, or the length of the
/// source where there is none.
pub open spec fn skip_line(src: Seq<char>, i: int) -> int
    decreases src.len() - i,
{
    if 0 <= i < src.len() && src[i] != '\n' {
        skip_line(src, i + 1)
    } else {
        i
    }
}

/// The character that a backslash followed by `c` stands for, if any.
pub open spec fn spec_escape(c: char) -> Option<char> {
    if c == 'n' {
        Some('\n')
    } else if c == 't' {
        Some('\t')
    } else if c == 'r' {
        Some('\r')
    } else if c == '0' {
        Some('\0')
    } else if c == '\'' {
        Some('\'')
    } else if c == '"' {
        Some('"')
    } else if c == '\\' {
        Some('\\')
    } else {
        None
    }
}

/// The rest of a string literal, from index `i` inside it: the decoded
/// characters, `acc` first, and the index at which the body ends, which is
/// that of the closing quote or the length of the source. `start` is the
/// byte offset of the opening quote.
pub open spec fn string_body(src: Seq<char>, i: int, acc: Seq<char>, start: usize) -> Result<
    (Seq<char>, int),
    SpecError,
>
    decreases src.len() - i,
{
    if !(0 <= i < src.len()) || src[i] == '"' {
        Ok((acc, i))
    } else if src[i] == '\\' {
        if i + 1 >= src.len() {
            Err(SpecError::UnterminatedString(start))
        } else {
            match spec_escape(src[i + 1]) {
                Some(c) => string_body(src, i + 2, acc.push(c), start),
                None => Err(SpecError::InvalidEscape(src[i + 1])),
            }
        }
    } else {
        string_body(src, i + 1, acc.push(src[i]), start)
    }
}

/// The string literal whose opening quote is at index `i`.
pub open spec fn scan_string(src: Seq<char>, i: int) -> Result<(SpecToken, int), SpecError> {
    let start = byte_offset(src, i) as usize;
    match string_body(src, i + 1, Seq::empty(), start) {
        Err(e) => Err(e),
        Ok((text, end)) => if end < src.len() {
            Ok(
                (
                    SpecToken {
                        token: SpecTokenType::Literal(SpecLiteral::String(text)),
                        pos: start,
                    },
                    end + 1,
                ),
            )
        } else {
            Err(SpecError::UnterminatedString(start))
        },
    }
}

/// The character literal whose opening quote is at index `i`.
pub open spec fn scan_char(src: Seq<char>, i: int) -> Result<(SpecToken, int), SpecError> {
    let start = byte_offset(src, i) as usize;
    if i + 1 >= src.len() {
        Err(SpecError::UnterminatedChar(start))
    } else if src[i + 1] == '\\' {
        if i + 2 >= src.len() {
            Err(SpecError::UnterminatedChar(start))
        } else {
            match spec_escape(src[i + 2]) {
                None => Err(SpecError::InvalidEscape(src[i + 2])),
                Some(c) => close_char(src, i + 3, c, start),
            }
        }
    } else {
        close_char(src, i + 2, src[i + 1], start)
    }
}

/// The character literal `c` that started at byte `start`, once its closing
/// quote is found at index `i`.
pub open spec fn close_char(src: Seq<char>, i: int, c: char, start: usize) -> Result<
    (SpecToken, int),
    SpecError,
> {
    if 0 <= i < src.len() && src[i] == '\'' {
        Ok((SpecToken { token: SpecTokenType::Literal(SpecLiteral::Char(c)), pos: start }, i + 1))
    } else {
        Err(SpecError::UnterminatedChar(start))
    }
}

/// The token that starts at or after index `i`, past whitespace and
/// comments, with the index after it; or the lexical error met on the way.
///
/// What the first character is decides, in this order: a digit starts a
/// number, a letter a name or keyword, an operator character an operator, a
/// quote a literal, a delimiter stands for itself, `#` starts a comment that
/// runs to the end of the line. At the end of the source the token is `Eof`.
#[verifier::opaque]
pub open spec fn scan_token(src: Seq<char>, i: int) -> Result<(SpecToken, int), SpecError>
    decreases src.len() - i,
{
    let j = skip_whitespace(src, i);
    let pos = #[verifier::truncate] (byte_offset(src, j) as usize);
    if !(0 <= j < src.len()) {
        Ok((SpecToken { token: SpecTokenType::Eof, pos }, j))
    } else if numeral(src[j]) {
        let end = run_end(src, j, Run::Digits);
        let digits = src.subrange(j, end);
        match spec_parse_decimal(digits, u64::MAX as nat) {
            Some(n) => Ok((SpecToken { token: SpecTokenType::Number(n as u64), pos }, end)),
            None => Err(SpecError::ParseInt(digits)),
        }
    } else if letter(src[j]) {
        let end = run_end(src, j, Run::Word);
        let word = src.subrange(j, end);
        match spec_keyword(word) {
            Some(k) => Ok((SpecToken { token: SpecTokenType::Keyword(k), pos }, end)),
            None => Ok((SpecToken { token: SpecTokenType::Name(word), pos }, end)),
        }
    } else if spec_is_operator(src[j]) {
        let end = run_end(src, j, Run::Operator);
        Ok((SpecToken { token: SpecTokenType::Op(src.subrange(j, end)), pos }, end))
    } else if src[j] == '\'' {
        scan_char(src, j)
    } else if src[j] == '"' {
        scan_string(src, j)
    } else if spec_is_delim(src[j]) {
        Ok((SpecToken { token: SpecTokenType::Delim(src[j]), pos }, j + 1))
    } else if spec_is_comment(src[j]) {
        proof {
            if 0 <= i <= src.len() {
                lemma_ends(src, i, Run::Digits);
                lemma_ends(src, j, Run::Digits);
            }
        }
        scan_token(src, skip_line(src, j))
    } else {
        Err(SpecError::UnrecognizedToken(src[j], pos))
    }
}

/// A run, the skipped whitespace, and a skipped line end within the source
/// and not before where they start; a comment line is not empty.
pub proof fn lemma_ends(src: Seq<char>, i: int, run: Run)
    requires
        0 <= i <= src.len(),
    ensures
        i <= run_end(src, i, run) <= src.len(),
        i <= skip_whitespace(src, i) <= src.len(),
        i <= skip_line(src, i) <= src.len(),
        i < src.len() && in_run(run, src[i]) ==> i < run_end(src, i, run),
        i < src.len() && src[i] != '\n' ==> i < skip_line(src, i),
    decreases src.len() - i,
{
    if i < src.len() {
        lemma_ends(src, i + 1, run);
    }
}

/// The end of a string body lies within the source, after where it starts.
pub proof fn lemma_string_body(src: Seq<char>, i: int, acc: Seq<char>, start: usize)
    requires
        0 <= i <= src.len(),
    ensures
        string_body(src, i, acc, start) matches Ok((_, end)) ==> i <= end <= src.len(),
    decreases src.len() - i,
{
    if i < src.len() && src[i] != '"' {
        if src[i] == '\\' {
            if i + 1 < src.len() {
                match spec_escape(src[i + 1]) {
                    Some(c) => lemma_string_body(src, i + 2, acc.push(c), start),
                    None => {},
                }
            }
        } else {
            lemma_string_body(src, i + 1, acc.push(src[i]), start);
        }
    }
}

/// A token never ends before where the scan started, and every token but
/// `Eof` takes at least one character of the source.
pub proof fn lemma_scan_token(src: Seq<char>, i: int)
    ensures
        scan_token(src, i) matches Ok((tok, end)) ==> {
            &&& i <= end
            &&& i <= src.len() ==> end <= src.len()
            &&& tok.token !is Eof ==> 0 <= i < end <= src.len()
        },
    decreases src.len() - i,
{
    reveal(scan_token);
    let j = skip_whitespace(src, i);
    if 0 <= i <= src.len() {
        lemma_ends(src, i, Run::Digits);
        if j < src.len() {
            lemma_ends(src, j, Run::Digits);
            lemma_ends(src, j, Run::Word);
            lemma_ends(src, j, Run::Operator);
            if numeral(src[j]) {
            } else if letter(src[j]) {
            } else if spec_is_operator(src[j]) {
            } else if src[j] == '\'' {
            } else if src[j] == '"' {
                lemma_string_body(src, j + 1, Seq::empty(), byte_offset(src, j) as usize);
            } else if spec_is_delim(src[j]) {
            } else if spec_is_comment(src[j]) {
                lemma_scan_token(src, skip_line(src, j));
            }
        }
    }
}

/// A place in the source: the index of a character and its byte offset.
#[derive(Clone, Copy, Debug)]
pub struct Cursor {
    pub idx: usize,
    pub pos: usize,
}

/// Whether `c` is a place in `src`, with the byte offset that belongs to
/// its index.
pub open spec fn cursor_at(src: Seq<char>, c: Cursor) -> bool {
    c.idx <= src.len() && c.pos == byte_offset(src, c.idx as int)
}

/// Whether every byte offset in `src` fits the machine's word.
pub open spec fn fits(src: Seq<char>) -> bool {
    byte_offset(src, src.len() as int) <= usize::MAX
}

/// Byte offsets grow with the index.
pub proof fn lemma_offset_monotonic(src: Seq<char>, i: int, j: int)
    requires
        0 <= i <= j <= src.len(),
    ensures
        byte_offset(src, i) <= byte_offset(src, j),
    decreases j - i,
{
    if i < j {
        lemma_offset_monotonic(src, i, j - 1);
    }
}

/// The byte offset of an index is that of the same index in a prefix that
/// reaches it.
proof fn lemma_offset_prefix(src: Seq<char>, n: int, i: int)
    requires
        0 <= i <= n <= src.len(),
    ensures
        byte_offset(src.take(n), i) == byte_offset(src, i),
    decreases i,
{
    if i > 0 {
        lemma_offset_prefix(src, n, i - 1);
    }
}

/// The UTF-8 text of `src` is as long as the byte offset of its end.
proof fn lemma_encoded_len(src: Seq<char>)
    ensures
        encode_utf8(src).len() == byte_offset(src, src.len() as int),
    decreases src.len(),
{
    if src.len() > 0 {
        let n = src.len() as int;
        let head = src.take(n - 1);
        let last = seq![src[n - 1]];
        lemma_encoded_concat(head, last);
        assert(head + last =~= src);
        lemma_encoded_len(head);
        lemma_offset_prefix(src, n - 1, n - 1);
        assert(last.drop_first() =~= Seq::<char>::empty());
        assert(encode_utf8(last) =~= encode_scalar(src[n - 1] as u32)) by {
            reveal_with_fuel(encode_utf8, 2);
        }
        vstd::utf8::char_is_scalar(src[n - 1]);
        assert(encode_scalar(src[n - 1] as u32).len() == utf8_width(src[n - 1]));
    }
}

/// The UTF-8 text of two sequences joined is their two texts joined.
proof fn lemma_encoded_concat(a: Seq<char>, b: Seq<char>)
    ensures
        encode_utf8(a + b) =~= encode_utf8(a) + encode_utf8(b),
    decreases a.len(),
{
    if a.len() == 0 {
        assert(a + b =~= b);
    } else {
        assert((a + b).drop_first() =~= a.drop_first() + b);
        lemma_encoded_concat(a.drop_first(), b);
    }
}

/// The number of bytes that `c` takes in UTF-8.
pub fn width(c: char) -> (r: usize)
    ensures
        r == utf8_width(c),
{
    let u = c as u32;
    if u < 0x80 {
        1
    } else if u < 0x800 {
        2
    } else if u < 0x10000 {
        3
    } else {
        4
    }
}

/// The place one character after `c`.
fn advance(src: &Vec<char>, c: Cursor) -> (r: Cursor)
    requires
        fits(src@),
        cursor_at(src@, c),
        c.idx < src.len(),
    ensures
        r.idx == c.idx + 1,
        cursor_at(src@, r),
{
    proof {
        lemma_offset_monotonic(src@, c.idx + 1, src.len() as int);
    }
    Cursor { idx: c.idx + 1, pos: c.pos + width(src[c.idx]) }
}

/// Whether `c` belongs to the class `run`.
fn belongs(run: Run, c: char) -> (r: bool)
    ensures
        r == in_run(run, c),
{
    match run {
        Run::Digits => is_numeral(c),
        Run::Word => is_letter(c) || is_numeral(c) || c == '_',
        Run::Operator => is_operator(c),
    }
}

/// The place after the longest run of class `run` that starts at `c`.
fn take_run(src: &Vec<char>, c: Cursor, run: Run) -> (r: Cursor)
    requires
        fits(src@),
        cursor_at(src@, c),
    ensures
        r.idx == run_end(src@, c.idx as int, run),
        cursor_at(src@, r),
{
    let mut at = c;
    while at.idx < src.len() && belongs(run, src[at.idx])
        invariant
            fits(src@),
            cursor_at(src@, at),
            run_end(src@, at.idx as int, run) == run_end(src@, c.idx as int, run),
        decreases src.len() - at.idx,
    {
        at = advance(src, at);
    }
    at
}

/// The place of the first character at or after `c` that is not whitespace.
fn consume_whitespace(src: &Vec<char>, c: Cursor) -> (r: Cursor)
    requires
        fits(src@),
        cursor_at(src@, c),
    ensures
        r.idx == skip_whitespace(src@, c.idx as int),
        cursor_at(src@, r),
{
    let mut at = c;
    while at.idx < src.len() && is_space(src[at.idx])
        invariant
            fits(src@),
            cursor_at(src@, at),
            skip_whitespace(src@, at.idx as int) == skip_whitespace(src@, c.idx as int),
        decreases src.len() - at.idx,
    {
        at = advance(src, at);
    }
    at
}

/// The place of the first line feed at or after `c`, or the end of the
/// source.
fn consume_line(src: &Vec<char>, c: Cursor) -> (r: Cursor)
    requires
        fits(src@),
        cursor_at(src@, c),
    ensures
        r.idx == skip_line(src@, c.idx as int),
        cursor_at(src@, r),
{
    let mut at = c;
    while at.idx < src.len() && src[at.idx] != '\n'
        invariant
            fits(src@),
            cursor_at(src@, at),
            skip_line(src@, at.idx as int) == skip_line(src@, c.idx as int),
        decreases src.len() - at.idx,
    {
        at = advance(src, at);
    }
    at
}

/// The characters of `src` from index `from` up to `to`.
fn slice(src: &Vec<char>, from: usize, to: usize) -> (r: Vec<char>)
    requires
        from <= to <= src.len(),
    ensures
        r@ == src@.subrange(from as int, to as int),
{
    let mut r: Vec<char> = Vec::new();
    let mut i: usize = from;
    while i < to
        invariant
            from <= i <= to <= src.len(),
            r@ == src@.subrange(from as int, i as int),
        decreases to - i,
    {
        r.push(src[i]);
        assert(src@.subrange(from as int, i as int).push(src@[i as int]) =~= src@.subrange(
            from as int,
            i + 1,
        ));
        i += 1;
    }
    r
}

/// The character that a backslash followed by `c` stands for.
pub fn escape_char(c: char) -> (r: Parse<char>)
    ensures
        match spec_escape(c) {
            Some(v) => r == Ok::<char, Error>(v),
            None => r matches Err(e) && e@ == SpecError::InvalidEscape(c),
        },
{
    if c == 'n' {
        Ok('\n')
    } else if c == 't' {
        Ok('\t')
    } else if c == 'r' {
        Ok('\r')
    } else if c == '0' {
        Ok('\0')
    } else if c == '\'' {
        Ok('\'')
    } else if c == '"' {
        Ok('"')
    } else if c == '\\' {
        Ok('\\')
    } else {
        Err(Error::InvalidEscape(c))
    }
}

/// The number whose first digit is at `c`.
fn next_num(src: &Vec<char>, c: Cursor) -> (r: Parse<(u64, Cursor)>)
    requires
        fits(src@),
        cursor_at(src@, c),
    ensures
        ({
            let end = run_end(src@, c.idx as int, Run::Digits);
            let digits = src@.subrange(c.idx as int, end);
            match spec_parse_decimal(digits, u64::MAX as nat) {
                Some(n) => r matches Ok((v, after)) && v == n && after.idx == end && cursor_at(
                    src@,
                    after,
                ),
                None => r matches Err(e) && e@ == SpecError::ParseInt(digits),
            }
        }),
{
    let after = take_run(src, c, Run::Digits);
    proof {
        lemma_ends(src@, c.idx as int, Run::Digits);
    }
    let digits = slice(src, c.idx, after.idx);
    match parse_decimal(digits.as_slice(), u64::MAX) {
        Some(n) => Ok((n, after)),
        None => Err(Error::ParseInt(string_of(digits.as_slice()))),
    }
}

/// The name or keyword whose first letter is at `c`.
fn next_word(src: &Vec<char>, c: Cursor) -> (r: (TokenType, Cursor))
    requires
        fits(src@),
        cursor_at(src@, c),
    ensures
        ({
            let end = run_end(src@, c.idx as int, Run::Word);
            let word = src@.subrange(c.idx as int, end);
            &&& r.1.idx == end
            &&& cursor_at(src@, r.1)
            &&& r.0@ == match spec_keyword(word) {
                Some(k) => SpecTokenType::Keyword(k),
                None => SpecTokenType::Name(word),
            }
        }),
{
    let after = take_run(src, c, Run::Word);
    proof {
        lemma_ends(src@, c.idx as int, Run::Word);
    }
    let word = slice(src, c.idx, after.idx);
    match Keyword::lookup(word.as_slice()) {
        Some(k) => (TokenType::Keyword(k), after),
        None => (TokenType::Name(string_of(word.as_slice())), after),
    }
}

/// The operator characters that start at `c`.
fn next_op(src: &Vec<char>, c: Cursor) -> (r: (Vec<char>, Cursor))
    requires
        fits(src@),
        cursor_at(src@, c),
    ensures
        r.1.idx == run_end(src@, c.idx as int, Run::Operator),
        cursor_at(src@, r.1),
        r.0@ == src@.subrange(c.idx as int, r.1.idx as int),
{
    let after = take_run(src, c, Run::Operator);
    proof {
        lemma_ends(src@, c.idx as int, Run::Operator);
    }
    (slice(src, c.idx, after.idx), after)
}

/// The character literal whose opening quote is at `c`.
fn next_char(src: &Vec<char>, c: Cursor) -> (r: Parse<(Token, Cursor)>)
    requires
        fits(src@),
        cursor_at(src@, c),
        c.idx < src.len(),
    ensures
        match scan_char(src@, c.idx as int) {
            Ok((tok, end)) => r matches Ok((t, after)) && t@ == tok && after.idx == end
                && cursor_at(src@, after),
            Err(e) => r matches Err(x) && x@ == e,
        },
{
    let mut at = advance(src, c);
    if at.idx >= src.len() {
        return Err(Error::UnterminatedChar(c.pos));
    }
    let mut value = src[at.idx];
    at = advance(src, at);
    if value == '\\' {
        if at.idx >= src.len() {
            return Err(Error::UnterminatedChar(c.pos));
        }
        value = escape_char(src[at.idx])?;
        at = advance(src, at);
    }
    if at.idx < src.len() && src[at.idx] == '\'' {
        at = advance(src, at);
        Ok((Token { token: TokenType::Literal(Literal::Char(value)), pos: c.pos }, at))
    } else {
        Err(Error::UnterminatedChar(c.pos))
    }
}

/// The string literal whose opening quote is at `c`.
fn next_string(src: &Vec<char>, c: Cursor) -> (r: Parse<(Token, Cursor)>)
    requires
        fits(src@),
        cursor_at(src@, c),
        c.idx < src.len(),
    ensures
        match scan_string(src@, c.idx as int) {
            Ok((tok, end)) => r matches Ok((t, after)) && t@ == tok && after.idx == end
                && cursor_at(src@, after),
            Err(e) => r matches Err(x) && x@ == e,
        },
{
    let mut at = advance(src, c);
    let mut text = String::new();
    let ghost whole = string_body(src@, c.idx + 1, Seq::empty(), c.pos);
    while at.idx < src.len() && src[at.idx] != '"'
        invariant
            fits(src@),
            cursor_at(src@, at),
            string_body(src@, at.idx as int, text@, c.pos) == whole,
            whole == string_body(src@, c.idx + 1, Seq::empty(), c.pos),
            cursor_at(src@, c),
        decreases src.len() - at.idx,
    {
        let mut value = src[at.idx];
        at = advance(src, at);
        if value == '\\' {
            if at.idx >= src.len() {
                return Err(Error::UnterminatedString(c.pos));
            }
            value = escape_char(src[at.idx])?;
            at = advance(src, at);
        }
        text.push(value);
    }
    if at.idx < src.len() {
        at = advance(src, at);
        Ok((Token { token: TokenType::Literal(Literal::String(text)), pos: c.pos }, at))
    } else {
        Err(Error::UnterminatedString(c.pos))
    }
}

/// The token that starts at or after `c`, and the place after it.
fn next_tok(src: &Vec<char>, c: Cursor) -> (r: Parse<(Token, Cursor)>)
    requires
        fits(src@),
        cursor_at(src@, c),
    ensures
        match scan_token(src@, c.idx as int) {
            Ok((tok, end)) => r matches Ok((t, after)) && t@ == tok && after.idx == end
                && cursor_at(src@, after),
            Err(e) => r matches Err(x) && x@ == e,
        },
    decreases src.len() - c.idx,
{
    reveal(scan_token);
    let at = consume_whitespace(src, c);
    proof {
        lemma_ends(src@, c.idx as int, Run::Digits);
    }
    if at.idx >= src.len() {
        return Ok((Token { token: TokenType::Eof, pos: at.pos }, at));
    }
    let first = src[at.idx];
    if is_numeral(first) {
        let (n, after) = next_num(src, at)?;
        Ok((Token { token: TokenType::Number(n), pos: at.pos }, after))
    } else if is_letter(first) {
        let (token, after) = next_word(src, at);
        Ok((Token { token, pos: at.pos }, after))
    } else if is_operator(first) {
        let (op, after) = next_op(src, at);
        Ok((Token { token: TokenType::Op(op), pos: at.pos }, after))
    } else if first == '\'' {
        next_char(src, at)
    } else if first == '"' {
        next_string(src, at)
    } else if is_delim(first) {
        let after = advance(src, at);
        Ok((Token { token: TokenType::Delim(first), pos: at.pos }, after))
    } else if is_comment(first) {
        let line_end = consume_line(src, at);
        proof {
            lemma_ends(src@, at.idx as int, Run::Digits);
        }
        next_tok(src, line_end)
    } else {
        Err(Error::UnrecognizedToken(first, at.pos))
    }
}

/// The state of a scanner: the source and the index from which the next
/// token will be read.
pub ghost struct SpecScanner {
    pub src: Seq<char>,
    pub at: int,
}

/// A scanner over a source text, with one token of lookahead.
pub struct Scanner {
    src: Vec<char>,
    at: Cursor,
    next: Option<(Token, Cursor)>,
}

impl View for Scanner {
    type V = SpecScanner;

    closed spec fn view(&self) -> SpecScanner {
        SpecScanner { src: self.src@, at: self.at.idx as int }
    }
}

impl Scanner {
    /// The token kept by `peek`, if there is one, is the one that starts
    /// where the scanner stands.
    #[verifier::type_invariant]
    pub closed spec fn wf(&self) -> bool {
        &&& fits(self.src@)
        &&& cursor_at(self.src@, self.at)
        &&& self.next matches Some((tok, after)) ==> {
            &&& scan_token(self.src@, self.at.idx as int) == Ok::<(SpecToken, int), SpecError>(
                (tok@, after.idx as int),
            )
            &&& cursor_at(self.src@, after)
        }
    }

    /// A scanner at the start of `src`.
    pub fn new(src: &str) -> (r: Scanner)
        ensures
            r@ == (SpecScanner { src: src@, at: 0 }),
    {
        let chars = chars_of(src);
        let bytes = src.as_bytes();
        let n = bytes.len();
        proof {
            lemma_encoded_len(src@);
        }
        Scanner { src: chars, at: Cursor { idx: 0, pos: 0 }, next: None }
    }

    /// The next token, which stays to be read.
    pub fn peek(&mut self) -> (r: Parse<Token>)
        ensures
            final(self)@ == old(self)@,
            0 <= old(self)@.at <= old(self)@.src.len(),
            match scan_token(old(self)@.src, old(self)@.at) {
                Ok((tok, end)) => r matches Ok(t) && t@ == tok,
                Err(e) => r matches Err(x) && x@ == e,
            },
    {
        proof {
            use_type_invariant(&*self);
        }
        if self.next.is_none() {
            let (tok, after) = next_tok(&self.src, self.at)?;
            self.next = Some((tok, after));
        }
        match &self.next {
            Some((tok, _)) => Ok(tok.clone()),
            None => Ok(Token { token: TokenType::Eof, pos: 0 }),
        }
    }

    /// Reads the next token. After an error the scanner stands where it
    /// stood.
    pub fn next(&mut self) -> (r: Parse<Token>)
        ensures
            final(self)@.src == old(self)@.src,
            0 <= old(self)@.at <= old(self)@.src.len(),
            match scan_token(old(self)@.src, old(self)@.at) {
                Ok((tok, end)) => r matches Ok(t) && t@ == tok && final(self)@.at == end,
                Err(e) => r matches Err(x) && x@ == e && final(self)@.at == old(self)@.at,
            },
    {
        proof {
            use_type_invariant(&*self);
        }
        match &self.next {
            Some((tok, after)) => {
                let tok = tok.clone();
                let after = *after;
                self.next = None;
                self.at = after;
                Ok(tok)
            },
            None => {
                let (tok, after) = next_tok(&self.src, self.at)?;
                self.at = after;
                Ok(tok)
            },
        }
    }
}

} // verus!
