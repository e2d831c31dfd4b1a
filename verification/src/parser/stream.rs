//! Runs of tokens in a source: where reading a given list of tokens from
//! an index ends.

use vstd::prelude::*;
use crate::parser::scanner::{lemma_scan_token, scan_token};
use crate::parser::tokens::SpecTokenType;

verus! {

/// The kind of the token that starts at or after `at`, where one scans.
pub open spec fn next_kind(src: Seq<char>, at: int) -> Option<SpecTokenType> {
    match scan_token(src, at) {
        Ok((tok, _)) => Some(tok.token),
        Err(_) => None,
    }
}

/// The index after the token that starts at or after `at`.
pub open spec fn next_end(src: Seq<char>, at: int) -> int {
    match scan_token(src, at) {
        Ok((_, end)) => end,
        Err(_) => at,
    }
}

/// Where reading the tokens of the kinds `kinds`, in order, from `at`
/// ends, if the source holds them there.
pub open spec fn stream_end(src: Seq<char>, at: int, kinds: Seq<SpecTokenType>) -> Option<int>
    decreases kinds.len(),
{
    if kinds.len() == 0 {
        Some(at)
    } else if next_kind(src, at) == Some(kinds[0]) {
        stream_end(src, next_end(src, at), kinds.drop_first())
    } else {
        None
    }
}

/// Reading two lists of tokens one after the other is reading the first
/// and then, from where it ends, the second.
pub proof fn lemma_stream_concat(
    src: Seq<char>,
    at: int,
    a: Seq<SpecTokenType>,
    b: Seq<SpecTokenType>,
)
    ensures
        stream_end(src, at, a + b) == match stream_end(src, at, a) {
            Some(mid) => stream_end(src, mid, b),
            None => None,
        },
    decreases a.len(),
{
    if a.len() == 0 {
        assert(a + b =~= b);
    } else {
        assert((a + b)[0] == a[0]);
        assert((a + b).drop_first() =~= a.drop_first() + b);
        if next_kind(src, at) == Some(a[0]) {
            lemma_stream_concat(src, next_end(src, at), a.drop_first(), b);
        }
    }
}

/// Reading one token.
pub proof fn lemma_stream_one(src: Seq<char>, at: int, k: SpecTokenType)
    ensures
        stream_end(src, at, seq![k]) == if next_kind(src, at) == Some(k) {
            Some(next_end(src, at))
        } else {
            None
        },
{
    assert(seq![k].drop_first() =~= Seq::<SpecTokenType>::empty());
    assert(seq![k][0] == k);
    reveal_with_fuel(stream_end, 2);
}

/// Reading a token and then a list of tokens.
pub proof fn lemma_stream_first(src: Seq<char>, at: int, k: SpecTokenType, rest: Seq<SpecTokenType>)
    ensures
        stream_end(src, at, seq![k] + rest) == if next_kind(src, at) == Some(k) {
            stream_end(src, next_end(src, at), rest)
        } else {
            None
        },
{
    lemma_stream_concat(src, at, seq![k], rest);
    lemma_stream_one(src, at, k);
}

/// Whether none of the kinds is `Eof`.
pub open spec fn no_eof(kinds: Seq<SpecTokenType>) -> bool {
    forall|i: int| 0 <= i < kinds.len() ==> !(#[trigger] kinds[i] is Eof)
}

/// Reading tokens ends within the source and not before where it
/// started; past it, where a token other than `Eof` was read.
pub proof fn lemma_stream_bounds(src: Seq<char>, at: int, kinds: Seq<SpecTokenType>)
    requires
        at <= src.len(),
    ensures
        stream_end(src, at, kinds) matches Some(end) ==> at <= end <= src.len() && (kinds.len() > 0
            && no_eof(kinds) ==> at < end),
    decreases kinds.len(),
{
    if kinds.len() > 0 {
        lemma_scan_token(src, at);
        if next_kind(src, at) == Some(kinds[0]) {
            lemma_stream_bounds(src, next_end(src, at), kinds.drop_first());
            if no_eof(kinds) {
                assert(!(kinds[0] is Eof));
                assert forall|i: int| 0 <= i < kinds.drop_first().len() implies !(
                #[trigger] kinds.drop_first()[i] is Eof) by {
                    assert(kinds.drop_first()[i] == kinds[i + 1]);
                }
            }
        }
    }
}


/// Reading tokens of which the first is not `Eof` ends past where it
/// started.
pub proof fn lemma_stream_advances(src: Seq<char>, at: int, kinds: Seq<SpecTokenType>)
    requires
        at <= src.len(),
        kinds.len() > 0,
        !(kinds[0] is Eof),
    ensures
        stream_end(src, at, kinds) matches Some(end) ==> at < end <= src.len(),
{
    lemma_scan_token(src, at);
    if next_kind(src, at) == Some(kinds[0]) {
        lemma_stream_bounds(src, next_end(src, at), kinds.drop_first());
    }
}

/// The first of the tokens read from `at` is the token at `at`.
pub proof fn lemma_stream_head(src: Seq<char>, at: int, kinds: Seq<SpecTokenType>)
    requires
        kinds.len() > 0,
        stream_end(src, at, kinds) is Some,
    ensures
        next_kind(src, at) == Some(kinds[0]),
{
}

} // verus!
