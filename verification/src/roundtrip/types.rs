//! Types read back from their tokens.

use vstd::prelude::*;
use crate::parser::grammar::{named_type, type_expr, type_list};
use crate::parser::error::SpecError;
use crate::parser::scanner::{lemma_scan_token, scan_token};
use crate::parser::stream::{
    lemma_stream_bounds, lemma_stream_concat, lemma_stream_first, lemma_stream_one, next_end,
    next_kind, stream_end,
};
use crate::parser::tokens::{SpecToken, SpecTokenType};
use crate::roundtrip::canon::writable;
use crate::roundtrip::tokens::{arrow, delim, type_list_tokens, type_tokens};
use crate::semantics::types::{Size, SpecType};
use crate::text::{all_digits, decimal_value, spec_parse_decimal};

verus! {

/// Whether the token at `at` is one that a type can end before: it scans,
/// and is no `->`.
pub open spec fn ends_type(src: Seq<char>, at: int) -> bool {
    next_kind(src, at) matches Some(k) && k != arrow()
}

/// The names of the three named types spell those types.
proof fn lemma_named_types(tok: SpecToken)
    ensures
        named_type(seq!['i', '3', '2'], tok) == Ok::<SpecType, SpecError>(
            SpecType::Signed(Size::ThirtyTwo),
        ),
        named_type(seq!['b', 'o', 'o', 'l'], tok) == Ok::<SpecType, SpecError>(SpecType::Bool),
        named_type(seq!['c', 'h', 'a', 'r'], tok) == Ok::<SpecType, SpecError>(SpecType::Char),
{
    let i32_name = seq!['i', '3', '2'];
    let digits = i32_name.drop_first();
    assert(digits =~= seq!['3', '2']);
    assert(digits.drop_last() =~= seq!['3']);
    assert(seq!['3'].drop_last() =~= Seq::<char>::empty());
    assert(decimal_value(seq!['3']) == 3) by {
        reveal_with_fuel(decimal_value, 2);
    }
    assert(decimal_value(digits) == 32) by {
        reveal_with_fuel(decimal_value, 2);
    }
    assert(all_digits(digits));
    assert(spec_parse_decimal(digits, 255) == Some(32nat));
    let bool_name = seq!['b', 'o', 'o', 'l'];
    assert(bool_name[0] == 'b');
    let char_name = seq!['c', 'h', 'a', 'r'];
    assert(char_name[0] == 'c');
    assert(char_name[0] != bool_name[0]);
}

/// The tokens of a type are at least one, and the first is a name, `(`
/// or `[`.
pub proof fn lemma_type_head(t: SpecType)
    requires
        writable(t),
    ensures
        type_tokens(t).len() > 0,
        type_tokens(t)[0] is Name || type_tokens(t)[0] == delim('(') || type_tokens(t)[0] == delim(
            '[',
        ),
{
}

/// A type that can be written reads back from its tokens, where no `->`
/// follows them.
#[verifier::rlimit(50)]
pub proof fn lemma_type_reads(src: Seq<char>, at: int, t: SpecType)
    requires
        at <= src.len(),
        writable(t),
        stream_end(src, at, type_tokens(t)) matches Some(end) && ends_type(src, end),
    ensures
        type_expr(src, at) == Ok::<(SpecType, int), SpecError>(
            (t, stream_end(src, at, type_tokens(t))->0),
        ),
    decreases t, 0int,
{
    reveal(type_expr);
    reveal(type_list);
    let end = stream_end(src, at, type_tokens(t))->0;
    lemma_scan_token(src, at);
    lemma_type_head(t);
    lemma_stream_bounds(src, at, type_tokens(t));
    match t {
        SpecType::Tuple(ts) => {
            let inner = type_list_tokens(ts, 0) + seq![delim(')')];
            assert(type_tokens(t) =~= seq![delim('(')] + inner);
            lemma_stream_first(src, at, delim('('), inner);
            let a1 = next_end(src, at);
            lemma_type_list_reads(src, a1, ts, 0, Seq::empty());
            assert(Seq::<SpecType>::empty() + ts.subrange(0, ts.len() as int) =~= ts);
            lemma_stream_bounds(src, a1, inner);
        },
        SpecType::Array(item, n) => {
            let tail = seq![delim(';'), SpecTokenType::Number(n as u64), delim(']')];
            let inner = type_tokens(*item) + tail;
            assert(type_tokens(t) =~= seq![delim('[')] + inner);
            lemma_stream_first(src, at, delim('['), inner);
            let a1 = next_end(src, at);
            lemma_stream_concat(src, a1, type_tokens(*item), tail);
            let a2 = stream_end(src, a1, type_tokens(*item))->0;
            lemma_stream_bounds(src, a1, type_tokens(*item));
            let rest = seq![SpecTokenType::Number(n as u64), delim(']')];
            assert(tail =~= seq![delim(';')] + rest);
            lemma_stream_first(src, a2, delim(';'), rest);
            lemma_type_reads(src, a1, *item);
            let a3 = next_end(src, a2);
            lemma_scan_token(src, a2);
            assert(rest =~= seq![SpecTokenType::Number(n as u64)] + seq![delim(']')]);
            lemma_stream_first(src, a3, SpecTokenType::Number(n as u64), seq![delim(']')]);
            let a4 = next_end(src, a3);
            lemma_scan_token(src, a3);
            lemma_stream_one(src, a4, delim(']'));
            lemma_scan_token(src, a4);
            assert(#[verifier::truncate] ((n as u64) as usize) == n);
        },
        SpecType::Function { args, ret } => {
            let close = seq![delim(')'), arrow()];
            let list = type_list_tokens(args, 0) + seq![delim(')')];
            let tail = seq![arrow()] + type_tokens(*ret);
            assert(type_tokens(t) =~= seq![delim('(')] + (list + tail));
            lemma_stream_first(src, at, delim('('), list + tail);
            let a1 = next_end(src, at);
            lemma_stream_concat(src, a1, list, tail);
            lemma_type_list_reads(src, a1, args, 0, Seq::empty());
            assert(Seq::<SpecType>::empty() + args.subrange(0, args.len() as int) =~= args);
            let a2 = stream_end(src, a1, list)->0;
            lemma_stream_bounds(src, a1, list);
            lemma_stream_first(src, a2, arrow(), type_tokens(*ret));
            let a3 = next_end(src, a2);
            lemma_scan_token(src, a2);
            lemma_type_reads(src, a3, *ret);
        },
        _ => {
            let tok = scan_token(src, at)->Ok_0.0;
            lemma_named_types(tok);
            lemma_stream_one(src, at, type_tokens(t)[0]);
            assert(type_tokens(t) =~= seq![type_tokens(t)[0]]);
        },
    }
}

/// The types of a tuple type read back from their tokens and the `)`,
/// after those read before.
#[verifier::rlimit(50)]
pub proof fn lemma_type_list_reads(
    src: Seq<char>,
    at: int,
    ts: Seq<SpecType>,
    i: int,
    acc: Seq<SpecType>,
)
    requires
        at <= src.len(),
        0 <= i <= ts.len(),
        forall|j: int| 0 <= j < ts.len() ==> writable(#[trigger] ts[j]),
        stream_end(src, at, type_list_tokens(ts, i) + seq![delim(')')]) is Some,
    ensures
        type_list(src, at, acc) == Ok::<(Seq<SpecType>, int), SpecError>(
            (
                acc + ts.subrange(i, ts.len() as int),
                stream_end(src, at, type_list_tokens(ts, i) + seq![delim(')')])->0,
            ),
        ),
    decreases ts, ts.len() - i,
{
    reveal(type_expr);
    reveal(type_list);
    lemma_scan_token(src, at);
    let all = type_list_tokens(ts, i) + seq![delim(')')];
    if i == ts.len() {
        assert(all =~= seq![delim(')')]);
        lemma_stream_one(src, at, delim(')'));
        assert(acc + ts.subrange(i, ts.len() as int) =~= acc);
    } else {
        let one = type_tokens(ts[i]);
        lemma_type_head(ts[i]);
        let rest = if i + 1 == ts.len() {
            seq![delim(')')]
        } else {
            seq![delim(',')] + (type_list_tokens(ts, i + 1) + seq![delim(')')])
        };
        assert(all =~= one + rest);
        lemma_stream_concat(src, at, one, rest);
        assert(all[0] == one[0]);
        assert(stream_end(src, at, all) is Some);
        assert(next_kind(src, at) == Some(one[0])) by {
            assert(all.len() > 0);
        }
        let a2 = stream_end(src, at, one)->0;
        lemma_stream_bounds(src, at, one);
        assert(rest[0] == delim(')') || rest[0] == delim(','));
        assert(next_kind(src, a2) == Some(rest[0])) by {
            assert(rest.len() > 0);
            assert(stream_end(src, a2, rest) is Some);
        }
        lemma_type_reads(src, at, ts[i]);
        lemma_scan_token(src, a2);
        assert(acc.push(ts[i]) + ts.subrange(i + 1, ts.len() as int) =~= acc + ts.subrange(
            i,
            ts.len() as int,
        ));
        if i + 1 == ts.len() {
            lemma_type_list_reads(src, a2, ts, i + 1, acc.push(ts[i]));
            assert(type_list_tokens(ts, i + 1) + seq![delim(')')] =~= rest);
        } else {
            let after = type_list_tokens(ts, i + 1) + seq![delim(')')];
            lemma_stream_first(src, a2, delim(','), after);
            let a3 = next_end(src, a2);
            lemma_type_list_reads(src, a3, ts, i + 1, acc.push(ts[i]));
        }
    }
}

} // verus!
