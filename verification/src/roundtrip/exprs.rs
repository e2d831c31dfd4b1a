//! Expressions read back from their tokens.

use vstd::prelude::*;
use crate::ast::prettyprint::operator_text;
use crate::ast::tree::{spec_operator, Operator, SpecExpr, SpecExpression, SpecValue};
use crate::parser::error::SpecError;
use crate::parser::grammar::{
    arguments, array, array_rest, binary, binding, block, conditional, expression, later,
    operand_level, postfix, primary, sequence, sequence_rest, tuple_rest, untyped, Step,
};
use crate::parser::laws::law_operator_text;
use crate::parser::progress::{lemma_postfix, lemma_primary};
use crate::parser::scanner::{lemma_scan_token, scan_token};
use crate::parser::stream::{
    lemma_stream_advances, lemma_stream_bounds, lemma_stream_concat, lemma_stream_first,
    lemma_stream_head, lemma_stream_one, next_end, next_kind, stream_end,
};
use crate::parser::tokens::{Keyword, SpecTokenType};
use crate::roundtrip::canon::{canon, canon_all, lemma_canon_widens, Place};
use crate::roundtrip::tokens::{
    arrow, block_tokens, delim, equals, expr_tokens, list_tokens, type_tokens, Tokens,
};
use crate::roundtrip::types::{lemma_type_head, lemma_type_reads};

verus! {

/// Whether the token at `at` scans and is no `else`: what can follow a
/// conditional without `else`.
pub open spec fn settled(src: Seq<char>, at: int) -> bool {
    next_kind(src, at) matches Some(k) && k != SpecTokenType::Keyword(Keyword::Else)
}

/// Whether the token at `at` ends an expression: it scans, and is no
/// operator, no `(`, `[` or `.`, and no `else`.
pub open spec fn calm(src: Seq<char>, at: int) -> bool {
    next_kind(src, at) matches Some(k) && !(k is Op) && k != delim('(') && k != delim('[') && k
        != delim('.') && k != SpecTokenType::Keyword(Keyword::Else)
}

/// Whether a token can start an expression.
pub open spec fn starts(k: SpecTokenType) -> bool {
    k is Number || k is Name || k is Literal || k == delim('(') || k == delim('[') || (k matches SpecTokenType::Keyword(
        w,
    ) && w != Keyword::Else && w != Keyword::Func)
}

/// A term with what follows it: the part of an expression before its
/// infix operators.
pub open spec fn operand(src: Seq<char>, at: int) -> Step<SpecExpr> {
    match scan_token(src, at) {
        Err(e) => Err(e),
        Ok((tok, a1)) => if tok.token is Eof {
            Err(SpecError::UnexpectedToken(Seq::empty(), tok))
        } else {
            match primary(src, a1, tok) {
                Err(e) => Err(e),
                Ok((p, a2)) => postfix(src, later(at, a2), p),
            }
        },
    }
}

/// An expression is a term with what follows it, and then its infix
/// operators.
pub proof fn lemma_expression_is(src: Seq<char>, at: int, min: u8)
    requires
        at <= src.len(),
    ensures
        expression(src, at, min) == match operand(src, at) {
            Err(e) => Err::<(SpecExpression, int), SpecError>(e),
            Ok((q, a3)) => match binary(src, later(at, a3), q, min) {
                Err(e) => Err(e),
                Ok((r, a4)) => Ok((untyped(r), a4)),
            },
        },
{
    lemma_scan_token(src, at);
    match scan_token(src, at) {
        Err(e) => {},
        Ok((tok, a1)) => {
            if !(tok.token is Eof) {
                lemma_primary(src, a1, tok);
                match primary(src, a1, tok) {
                    Err(e) => {},
                    Ok((p, a2)) => {
                        lemma_postfix(src, a2, p);
                    },
                }
            }
        },
    }
}

/// Nothing follows a term before a token that starts no index and no
/// call.
pub proof fn lemma_postfix_ends(src: Seq<char>, at: int, x: SpecExpr)
    requires
        at <= src.len(),
        next_kind(src, at) matches Some(k) && k != delim('(') && k != delim('[') && k != delim('.'),
    ensures
        postfix(src, at, x) == Ok::<(SpecExpr, int), SpecError>((x, at)),
{
}

/// No infix operator follows before a token that is no operator.
pub proof fn lemma_binary_ends(src: Seq<char>, at: int, x: SpecExpr, min: u8)
    requires
        at <= src.len(),
        next_kind(src, at) matches Some(k) && !(k is Op),
    ensures
        binary(src, at, x, min) == Ok::<(SpecExpr, int), SpecError>((x, at)),
{
}

/// The tokens of an expression in form are at least one, and the first
/// can start an expression.
pub proof fn lemma_expr_head(e: SpecExpression)
    requires
        canon(e, Place::Whole),
    ensures
        expr_tokens(e).len() > 0,
        starts(expr_tokens(e)[0]),
    decreases e,
{
    match e.expr {
        SpecExpr::Unary { op, rhs } => {
            if op is TupleIndex {
                lemma_canon_widens(*rhs);
                lemma_expr_head(*rhs);
            }
        },
        SpecExpr::Binary { lhs, op, rhs } => {
            if op is Assign || op is ArrayIndex {
                lemma_canon_widens(*lhs);
                lemma_expr_head(*lhs);
            }
        },
        SpecExpr::Call { func, args } => {
            lemma_canon_widens(*func);
            lemma_expr_head(*func);
        },
        _ => {},
    }
}

/// A literal reads back from its token.
proof fn lemma_value_reads(src: Seq<char>, at: int, e: SpecExpression)
    requires
        at <= src.len(),
        canon(e, Place::Term),
        e.expr is Value || e.expr is Reference,
        stream_end(src, at, expr_tokens(e)) is Some,
    ensures
        operand(src, at) == postfix(src, stream_end(src, at, expr_tokens(e))->0, e.expr),
{
    let toks = expr_tokens(e);
    assert(toks =~= seq![toks[0]]);
    lemma_stream_one(src, at, toks[0]);
    lemma_scan_token(src, at);
    match e.expr {
        SpecExpr::Value(v) => match v {
            SpecValue::Number(n) => {
                assert(((n as u64) as i64) == n);
            },
            _ => {},
        },
        _ => {},
    }
}

/// A prefix operator and its operand, in their parentheses, read back
/// from their tokens.
proof fn lemma_prefix_reads(src: Seq<char>, at: int, e: SpecExpression)
    requires
        at <= src.len(),
        canon(e, Place::Term),
        e.expr matches SpecExpr::Unary { op, .. } && !(op is TupleIndex),
        stream_end(src, at, expr_tokens(e)) is Some,
    ensures
        operand(src, at) == postfix(src, stream_end(src, at, expr_tokens(e))->0, e.expr),
    decreases e, 0int,
{
    let op = e.expr->Unary_op;
    let rhs = *e.expr->Unary_rhs;
    let inner = expr_tokens(rhs) + seq![delim(')')];
    let after = seq![SpecTokenType::Op(operator_text(op))] + inner;
    assert(expr_tokens(e) =~= seq![delim('(')] + after);
    lemma_stream_first(src, at, delim('('), after);
    lemma_scan_token(src, at);
    let a1 = next_end(src, at);
    lemma_stream_first(src, a1, SpecTokenType::Op(operator_text(op)), inner);
    lemma_scan_token(src, a1);
    let a2 = next_end(src, a1);
    lemma_stream_concat(src, a2, expr_tokens(rhs), seq![delim(')')]);
    lemma_canon_widens(rhs);
    lemma_expr_head(rhs);
    lemma_stream_advances(src, a2, expr_tokens(rhs));
    let a3 = stream_end(src, a2, expr_tokens(rhs))->0;
    lemma_stream_one(src, a3, delim(')'));
    lemma_scan_token(src, a3);
    law_operator_text(op);
    lemma_operand_reads(src, a2, rhs, operand_level());
    lemma_expression_is(src, a1, 0);
    lemma_postfix_ends(src, a3, SpecExpr::Unary { op, rhs: Box::new(rhs) });
    lemma_binary_ends(src, a3, SpecExpr::Unary { op, rhs: Box::new(rhs) }, 0);
}

/// An infix operator and its operands, in their parentheses, read back
/// from their tokens.
#[verifier::rlimit(50)]
proof fn lemma_infix_reads(src: Seq<char>, at: int, e: SpecExpression)
    requires
        at <= src.len(),
        canon(e, Place::Term),
        e.expr matches SpecExpr::Binary { op, .. } && !(op is Assign) && !(op is ArrayIndex),
        stream_end(src, at, expr_tokens(e)) is Some,
    ensures
        operand(src, at) == postfix(src, stream_end(src, at, expr_tokens(e))->0, e.expr),
    decreases e, 0int,
{
    let op = e.expr->Binary_op;
    let lhs = *e.expr->Binary_lhs;
    let rhs = *e.expr->Binary_rhs;
    let right = expr_tokens(rhs) + seq![delim(')')];
    let from_op = seq![SpecTokenType::Op(operator_text(op))] + right;
    let inner = expr_tokens(lhs) + from_op;
    assert(expr_tokens(e) =~= seq![delim('(')] + inner);
    lemma_stream_first(src, at, delim('('), inner);
    lemma_scan_token(src, at);
    let a1 = next_end(src, at);
    lemma_stream_concat(src, a1, expr_tokens(lhs), from_op);
    lemma_canon_widens(lhs);
    lemma_expr_head(lhs);
    lemma_stream_advances(src, a1, expr_tokens(lhs));
    lemma_stream_head(src, a1, inner);
    let a2 = stream_end(src, a1, expr_tokens(lhs))->0;
    lemma_stream_first(src, a2, SpecTokenType::Op(operator_text(op)), right);
    lemma_scan_token(src, a2);
    let a3 = next_end(src, a2);
    lemma_stream_concat(src, a3, expr_tokens(rhs), seq![delim(')')]);
    lemma_canon_widens(rhs);
    lemma_expr_head(rhs);
    lemma_stream_advances(src, a3, expr_tokens(rhs));
    let a4 = stream_end(src, a3, expr_tokens(rhs))->0;
    lemma_stream_one(src, a4, delim(')'));
    lemma_scan_token(src, a4);
    law_operator_text(op);
    lemma_term_reads(src, a1, lhs);
    lemma_postfix_ends(src, a2, lhs.expr);
    let level = (op.spec_prec() + op.spec_assoc()) as u8;
    lemma_operand_reads(src, a3, rhs, level);
    let whole = SpecExpr::Binary { lhs: Box::new(untyped(lhs.expr)), op, rhs: Box::new(rhs) };
    assert(untyped(lhs.expr) == lhs);
    lemma_binary_ends(src, a4, whole, 0);
    lemma_expression_is(src, a1, 0);
}

/// The tokens that follow item `i - 1` of a tuple: the items from `i`
/// on, each after its comma, and the `)`; after the one item of a tuple of
/// one, a comma and the `)`.
pub open spec fn tuple_tail(items: Seq<SpecExpression>, i: int) -> Tokens {
    if items.len() == 1 {
        seq![delim(','), delim(')')]
    } else {
        rest_tokens(items, i, ')')
    }
}

/// The empty tuple reads back from its tokens.
proof fn lemma_unit_reads(src: Seq<char>, at: int, e: SpecExpression)
    requires
        at <= src.len(),
        e.expr matches SpecExpr::Tuple(items) && items.len() == 0,
        stream_end(src, at, expr_tokens(e)) is Some,
    ensures
        operand(src, at) == postfix(src, stream_end(src, at, expr_tokens(e))->0, e.expr),
{
    let items = e.expr->Tuple_0;
    lemma_scan_token(src, at);
    assert(list_tokens(items, 0, ',') =~= Seq::<SpecTokenType>::empty());
    assert(expr_tokens(e) =~= seq![delim('(')] + seq![delim(')')]);
    lemma_stream_first(src, at, delim('('), seq![delim(')')]);
    let a1 = next_end(src, at);
    lemma_stream_one(src, a1, delim(')'));
    lemma_scan_token(src, a1);
    assert(items =~= Seq::<SpecExpression>::empty());
}

/// The tokens of a tuple that is not empty are its `(`, those of its
/// first item, and what follows the first item.
proof fn lemma_tuple_tokens(e: SpecExpression)
    requires
        e.expr matches SpecExpr::Tuple(items) && items.len() > 0,
    ensures
        expr_tokens(e) == seq![delim('(')] + (expr_tokens(e.expr->Tuple_0[0]) + tuple_tail(
            e.expr->Tuple_0,
            1,
        )),
{
    let items = e.expr->Tuple_0;
    let first = items[0];
    if items.len() > 1 {
        assert(list_tokens(items, 0, ',') == expr_tokens(first) + seq![delim(',')] + list_tokens(
            items,
            1,
            ',',
        ));
    }
    assert(expr_tokens(e) =~= seq![delim('(')] + (expr_tokens(first) + tuple_tail(items, 1)));
}

/// A tuple reads back from its tokens.
proof fn lemma_tuple_reads(src: Seq<char>, at: int, e: SpecExpression)
    requires
        at <= src.len(),
        canon(e, Place::Term),
        e.expr is Tuple,
        stream_end(src, at, expr_tokens(e)) is Some,
    ensures
        operand(src, at) == postfix(src, stream_end(src, at, expr_tokens(e))->0, e.expr),
    decreases e, 0int,
{
    let items = e.expr->Tuple_0;
    if items.len() == 0 {
        lemma_unit_reads(src, at, e);
    } else {
        let first = items[0];
        let tail = tuple_tail(items, 1);
        let inner = expr_tokens(first) + tail;
        lemma_tuple_tokens(e);
        lemma_scan_token(src, at);
        lemma_stream_first(src, at, delim('('), inner);
        let a1 = next_end(src, at);
        lemma_stream_concat(src, a1, expr_tokens(first), tail);
        lemma_expr_head(first);
        lemma_stream_advances(src, a1, expr_tokens(first));
        lemma_stream_head(src, a1, inner);
        let a2 = stream_end(src, a1, expr_tokens(first))->0;
        lemma_stream_head(src, a2, tail);
        lemma_whole_reads(src, a1, first);
        lemma_tuple_rest_reads(src, a2, items, 1, seq![first]);
        assert(seq![first] + items.subrange(1, items.len() as int) =~= items);
        lemma_stream_bounds(src, a2, tail);
    }
}

/// The items of a tuple after the first read back from their tokens, each
/// after its comma, and the `)`.
proof fn lemma_tuple_rest_reads(
    src: Seq<char>,
    at: int,
    items: Seq<SpecExpression>,
    i: int,
    acc: Seq<SpecExpression>,
)
    requires
        at <= src.len(),
        canon_all(items),
        1 <= i <= items.len(),
        stream_end(src, at, tuple_tail(items, i)) is Some,
    ensures
        tuple_rest(src, at, acc) == Ok::<(Seq<SpecExpression>, int), SpecError>(
            (
                acc + items.subrange(i, items.len() as int),
                stream_end(src, at, tuple_tail(items, i))->0,
            ),
        ),
    decreases items, items.len() - i,
{
    lemma_scan_token(src, at);
    if items.len() == 1 {
        assert(seq![delim(','), delim(')')] =~= seq![delim(',')] + seq![delim(')')]);
        lemma_stream_first(src, at, delim(','), seq![delim(')')]);
        let a1 = next_end(src, at);
        lemma_stream_one(src, a1, delim(')'));
        lemma_scan_token(src, a1);
        assert(acc + items.subrange(i, items.len() as int) =~= acc);
    } else if i == items.len() {
        lemma_stream_one(src, at, delim(')'));
        assert(acc + items.subrange(i, items.len() as int) =~= acc);
    } else {
        let item = items[i];
        let rest = tuple_tail(items, i + 1);
        let from_item = expr_tokens(item) + rest;
        assert(list_tokens(items, i, ',') + seq![delim(')')] =~= from_item);
        lemma_stream_first(src, at, delim(','), from_item);
        let a1 = next_end(src, at);
        lemma_expr_head(item);
        lemma_stream_concat(src, a1, expr_tokens(item), rest);
        lemma_stream_head(src, a1, from_item);
        lemma_stream_advances(src, a1, expr_tokens(item));
        let a2 = stream_end(src, a1, expr_tokens(item))->0;
        lemma_stream_head(src, a2, rest);
        lemma_whole_reads(src, a1, item);
        lemma_tuple_rest_reads(src, a2, items, i + 1, acc.push(item));
        assert(acc.push(item) + items.subrange(i + 1, items.len() as int) =~= acc
            + items.subrange(i, items.len() as int));
    }
}

/// An array literal reads back from its tokens.
proof fn lemma_array_reads(src: Seq<char>, at: int, e: SpecExpression)
    requires
        at <= src.len(),
        canon(e, Place::Term),
        e.expr is Array,
        stream_end(src, at, expr_tokens(e)) is Some,
    ensures
        operand(src, at) == postfix(src, stream_end(src, at, expr_tokens(e))->0, e.expr),
    decreases e, 0int,
{
    let items = e.expr->Array_0;
    lemma_scan_token(src, at);
    if items.len() == 0 {
        assert(list_tokens(items, 0, ',') =~= Seq::<SpecTokenType>::empty());
        assert(expr_tokens(e) =~= seq![delim('[')] + seq![delim(']')]);
        lemma_stream_first(src, at, delim('['), seq![delim(']')]);
        let a1 = next_end(src, at);
        lemma_stream_one(src, a1, delim(']'));
        lemma_scan_token(src, a1);
        assert(items =~= Seq::<SpecExpression>::empty());
    } else {
        let first = items[0];
        let tail = if items.len() == 1 {
            seq![delim(']')]
        } else {
            seq![delim(',')] + (list_tokens(items, 1, ',') + seq![delim(']')])
        };
        let inner = expr_tokens(first) + tail;
        if items.len() > 1 {
            assert(list_tokens(items, 0, ',') == expr_tokens(first) + seq![delim(',')]
                + list_tokens(items, 1, ','));
        } else {
            assert(list_tokens(items, 0, ',') == expr_tokens(first));
        }
        assert(expr_tokens(e) =~= seq![delim('[')] + inner);
        lemma_stream_first(src, at, delim('['), inner);
        let a1 = next_end(src, at);
        lemma_stream_concat(src, a1, expr_tokens(first), tail);
        lemma_expr_head(first);
        lemma_stream_advances(src, a1, expr_tokens(first));
        lemma_stream_head(src, a1, inner);
        let a2 = stream_end(src, a1, expr_tokens(first))->0;
        lemma_stream_head(src, a2, tail);
        lemma_whole_reads(src, a1, first);
        lemma_list_rest_reads(src, a2, items, 1, seq![first], ']');
        assert(seq![first] + items.subrange(1, items.len() as int) =~= items);
        lemma_stream_bounds(src, a2, tail);
    }
}

/// The tokens that follow item `i - 1` of a list in brackets: the items
/// from `i` on, each after its comma, and the closing delimiter.
pub open spec fn rest_tokens(items: Seq<SpecExpression>, i: int, close: char) -> Tokens {
    if i >= items.len() {
        seq![delim(close)]
    } else {
        seq![delim(',')] + (list_tokens(items, i, ',') + seq![delim(close)])
    }
}

/// The items of an array literal after the first read back from their
/// tokens, each after its comma, and the `]`.
proof fn lemma_list_rest_reads(
    src: Seq<char>,
    at: int,
    items: Seq<SpecExpression>,
    i: int,
    acc: Seq<SpecExpression>,
    close: char,
)
    requires
        at <= src.len(),
        canon_all(items),
        1 <= i <= items.len(),
        close == ']',
        stream_end(src, at, rest_tokens(items, i, close)) is Some,
    ensures
        array_rest(src, at, acc) == Ok::<(Seq<SpecExpression>, int), SpecError>(
            (
                acc + items.subrange(i, items.len() as int),
                stream_end(src, at, rest_tokens(items, i, close))->0,
            ),
        ),
    decreases items, items.len() - i,
{
    lemma_scan_token(src, at);
    if i == items.len() {
        lemma_stream_one(src, at, delim(']'));
        assert(acc + items.subrange(i, items.len() as int) =~= acc);
    } else {
        let item = items[i];
        let rest = rest_tokens(items, i + 1, close);
        let from_item = expr_tokens(item) + rest;
        assert(list_tokens(items, i, ',') + seq![delim(close)] =~= from_item);
        lemma_stream_first(src, at, delim(','), from_item);
        let a1 = next_end(src, at);
        lemma_expr_head(item);
        lemma_stream_concat(src, a1, expr_tokens(item), rest);
        lemma_stream_head(src, a1, from_item);
        lemma_stream_advances(src, a1, expr_tokens(item));
        let a2 = stream_end(src, a1, expr_tokens(item))->0;
        lemma_stream_head(src, a2, rest);
        lemma_whole_reads(src, a1, item);
        lemma_list_rest_reads(src, a2, items, i + 1, acc.push(item), close);
        assert(acc.push(item) + items.subrange(i + 1, items.len() as int) =~= acc
            + items.subrange(i, items.len() as int));
    }
}

/// The arguments of a call read back from their tokens and the `)`.
proof fn lemma_arguments_read(
    src: Seq<char>,
    at: int,
    items: Seq<SpecExpression>,
    i: int,
    acc: Seq<SpecExpression>,
)
    requires
        at <= src.len(),
        canon_all(items),
        0 <= i <= items.len(),
        i == items.len() ==> i == 0,
        stream_end(src, at, list_tokens(items, i, ',') + seq![delim(')')]) is Some,
    ensures
        arguments(src, at, acc) == Ok::<(Seq<SpecExpression>, int), SpecError>(
            (
                acc + items.subrange(i, items.len() as int),
                stream_end(src, at, list_tokens(items, i, ',') + seq![delim(')')])->0,
            ),
        ),
    decreases items, items.len() - i,
{
    lemma_scan_token(src, at);
    let all = list_tokens(items, i, ',') + seq![delim(')')];
    if i == items.len() {
        assert(all =~= seq![delim(')')]);
        lemma_stream_one(src, at, delim(')'));
        assert(acc + items.subrange(i, items.len() as int) =~= acc);
    } else {
        let item = items[i];
        let rest = if i + 1 == items.len() {
            seq![delim(')')]
        } else {
            seq![delim(',')] + (list_tokens(items, i + 1, ',') + seq![delim(')')])
        };
        assert(all =~= expr_tokens(item) + rest);
        lemma_expr_head(item);
        lemma_stream_concat(src, at, expr_tokens(item), rest);
        lemma_stream_head(src, at, all);
        lemma_stream_advances(src, at, expr_tokens(item));
        let a2 = stream_end(src, at, expr_tokens(item))->0;
        lemma_stream_head(src, a2, rest);
        lemma_whole_reads(src, at, item);
        lemma_scan_token(src, a2);
        assert(acc.push(item) + items.subrange(i + 1, items.len() as int) =~= acc
            + items.subrange(i, items.len() as int));
        if i + 1 == items.len() {
            lemma_stream_one(src, a2, delim(')'));
            assert(items.subrange(i + 1, items.len() as int) =~= Seq::<SpecExpression>::empty());
            assert(acc.push(item) + Seq::<SpecExpression>::empty() =~= acc.push(item));
        } else {
            let after = list_tokens(items, i + 1, ',') + seq![delim(')')];
            lemma_stream_first(src, a2, delim(','), after);
            let a3 = next_end(src, a2);
            lemma_arguments_read(src, a3, items, i + 1, acc.push(item));
        }
    }
}

/// A sequence reads back from its tokens, before a `}`.
proof fn lemma_sequence_reads(src: Seq<char>, at: int, items: Seq<SpecExpression>)
    requires
        at <= src.len(),
        canon_all(items),
        items.len() > 0,
        stream_end(src, at, list_tokens(items, 0, ';')) matches Some(end) && next_kind(src, end)
            == Some(delim('}')),
    ensures
        sequence(src, at) == Ok::<(Seq<SpecExpression>, int), SpecError>(
            (items, stream_end(src, at, list_tokens(items, 0, ';'))->0),
        ),
    decreases items, items.len() + 1,
{
    let first = items[0];
    let rest = if items.len() == 1 {
        Seq::<SpecTokenType>::empty()
    } else {
        seq![delim(';')] + list_tokens(items, 1, ';')
    };
    assert(list_tokens(items, 0, ';') =~= expr_tokens(first) + rest);
    lemma_expr_head(first);
    lemma_stream_concat(src, at, expr_tokens(first), rest);
    lemma_stream_advances(src, at, expr_tokens(first));
    let a1 = stream_end(src, at, expr_tokens(first))->0;
    if items.len() > 1 {
        lemma_stream_head(src, a1, rest);
    } else {
        assert(stream_end(src, a1, rest) == Some(a1));
    }
    lemma_whole_reads(src, at, first);
    lemma_sequence_rest_reads(src, a1, items, 1, seq![first]);
    assert(seq![first] + items.subrange(1, items.len() as int) =~= items);
}

/// The expressions of a sequence after the first read back from their
/// tokens, each after its `;`, before a `}`.
proof fn lemma_sequence_rest_reads(
    src: Seq<char>,
    at: int,
    items: Seq<SpecExpression>,
    i: int,
    acc: Seq<SpecExpression>,
)
    requires
        at <= src.len(),
        canon_all(items),
        1 <= i <= items.len(),
        stream_end(
            src,
            at,
            if i == items.len() {
                Seq::<SpecTokenType>::empty()
            } else {
                seq![delim(';')] + list_tokens(items, i, ';')
            },
        ) matches Some(end) && next_kind(src, end) == Some(delim('}')),
    ensures
        sequence_rest(src, at, acc) == Ok::<(Seq<SpecExpression>, int), SpecError>(
            (
                acc + items.subrange(i, items.len() as int),
                stream_end(
                    src,
                    at,
                    if i == items.len() {
                        Seq::<SpecTokenType>::empty()
                    } else {
                        seq![delim(';')] + list_tokens(items, i, ';')
                    },
                )->0,
            ),
        ),
    decreases items, items.len() - i,
{
    lemma_scan_token(src, at);
    if i == items.len() {
        assert(acc + items.subrange(i, items.len() as int) =~= acc);
    } else {
        let item = items[i];
        let rest = if i + 1 == items.len() {
            Seq::<SpecTokenType>::empty()
        } else {
            seq![delim(';')] + list_tokens(items, i + 1, ';')
        };
        let from_item = expr_tokens(item) + rest;
        assert(list_tokens(items, i, ';') =~= from_item);
        lemma_stream_first(src, at, delim(';'), from_item);
        let a1 = next_end(src, at);
        lemma_expr_head(item);
        lemma_stream_concat(src, a1, expr_tokens(item), rest);
        lemma_stream_head(src, a1, from_item);
        lemma_stream_advances(src, a1, expr_tokens(item));
        let a2 = stream_end(src, a1, expr_tokens(item))->0;
        if i + 1 < items.len() {
            lemma_stream_head(src, a2, rest);
        } else {
            assert(stream_end(src, a2, rest) == Some(a2));
        }
        lemma_whole_reads(src, a1, item);
        lemma_sequence_rest_reads(src, a2, items, i + 1, acc.push(item));
        assert(acc.push(item) + items.subrange(i + 1, items.len() as int) =~= acc
            + items.subrange(i, items.len() as int));
    }
}

/// A sequence in braces reads back from its tokens.
pub proof fn lemma_block_reads(src: Seq<char>, at: int, items: Seq<SpecExpression>)
    requires
        at <= src.len(),
        canon_all(items),
        items.len() > 0,
        stream_end(src, at, block_tokens(items)) is Some,
    ensures
        block(src, at) == Ok::<(Seq<SpecExpression>, int), SpecError>(
            (items, stream_end(src, at, block_tokens(items))->0),
        ),
    decreases items, items.len() + 2,
{
    let inner = list_tokens(items, 0, ';') + seq![delim('}')];
    assert(block_tokens(items) =~= seq![delim('{')] + inner);
    lemma_stream_first(src, at, delim('{'), inner);
    lemma_scan_token(src, at);
    let a1 = next_end(src, at);
    lemma_stream_concat(src, a1, list_tokens(items, 0, ';'), seq![delim('}')]);
    let a2 = stream_end(src, a1, list_tokens(items, 0, ';'))->0;
    lemma_stream_bounds(src, a1, list_tokens(items, 0, ';'));
    lemma_stream_one(src, a2, delim('}'));
    lemma_scan_token(src, a2);
    lemma_sequence_reads(src, a1, items);
    lemma_expr_head(items[0]);
    assert(list_tokens(items, 0, ';').len() > 0 && !(list_tokens(items, 0, ';')[0] is Eof)) by {
        if items.len() == 1 {
        } else {
            assert(list_tokens(items, 0, ';') =~= expr_tokens(items[0]) + (seq![delim(';')]
                + list_tokens(items, 1, ';')));
        }
    }
    lemma_stream_advances(src, a1, list_tokens(items, 0, ';'));
}

/// A conditional reads back from its tokens.
#[verifier::rlimit(50)]
proof fn lemma_conditional_reads(src: Seq<char>, at: int, e: SpecExpression)
    requires
        at <= src.len(),
        canon(e, Place::Term),
        e.expr is If,
        stream_end(src, at, expr_tokens(e)) matches Some(end) && settled(src, end),
    ensures
        operand(src, at) == postfix(src, stream_end(src, at, expr_tokens(e))->0, e.expr),
    decreases e, 0int,
{
    let cond = *e.expr->If_cond;
    let then_ = e.expr->If_then_;
    let else_ = e.expr->If_else_;
    let tail = match else_ {
        Some(other) => seq![SpecTokenType::Keyword(Keyword::Else)] + block_tokens(other),
        None => Seq::<SpecTokenType>::empty(),
    };
    let blocks = block_tokens(then_) + tail;
    let inner = expr_tokens(cond) + blocks;
    assert(expr_tokens(e) =~= seq![SpecTokenType::Keyword(Keyword::If)] + inner);
    lemma_stream_first(src, at, SpecTokenType::Keyword(Keyword::If), inner);
    lemma_scan_token(src, at);
    let a1 = next_end(src, at);
    lemma_stream_concat(src, a1, expr_tokens(cond), blocks);
    lemma_expr_head(cond);
    lemma_stream_advances(src, a1, expr_tokens(cond));
    let a2 = stream_end(src, a1, expr_tokens(cond))->0;
    lemma_stream_concat(src, a2, block_tokens(then_), tail);
    assert(block_tokens(then_)[0] == delim('{'));
    lemma_stream_head(src, a2, block_tokens(then_));
    lemma_whole_reads(src, a1, cond);
    lemma_block_reads(src, a2, then_);
    lemma_stream_advances(src, a2, block_tokens(then_));
    let a3 = stream_end(src, a2, block_tokens(then_))->0;
    lemma_scan_token(src, a3);
    match else_ {
        Some(other) => {
            lemma_stream_first(src, a3, SpecTokenType::Keyword(Keyword::Else), block_tokens(other));
            let a4 = next_end(src, a3);
            lemma_block_reads(src, a4, other);
            assert(block_tokens(other)[0] == delim('{'));
            lemma_stream_advances(src, a4, block_tokens(other));
        },
        None => {
            assert(blocks =~= block_tokens(then_));
        },
    }
}

/// A loop reads back from its tokens.
proof fn lemma_loop_reads(src: Seq<char>, at: int, e: SpecExpression)
    requires
        at <= src.len(),
        canon(e, Place::Term),
        e.expr is While,
        stream_end(src, at, expr_tokens(e)) is Some,
    ensures
        operand(src, at) == postfix(src, stream_end(src, at, expr_tokens(e))->0, e.expr),
    decreases e, 0int,
{
    let cond = *e.expr->While_cond;
    let body = e.expr->While_body;
    let inner = expr_tokens(cond) + block_tokens(body);
    assert(expr_tokens(e) =~= seq![SpecTokenType::Keyword(Keyword::While)] + inner);
    lemma_stream_first(src, at, SpecTokenType::Keyword(Keyword::While), inner);
    lemma_scan_token(src, at);
    let a1 = next_end(src, at);
    lemma_stream_concat(src, a1, expr_tokens(cond), block_tokens(body));
    lemma_expr_head(cond);
    lemma_stream_advances(src, a1, expr_tokens(cond));
    let a2 = stream_end(src, a1, expr_tokens(cond))->0;
    assert(block_tokens(body)[0] == delim('{'));
    lemma_stream_head(src, a2, block_tokens(body));
    lemma_whole_reads(src, a1, cond);
    lemma_block_reads(src, a2, body);
    lemma_stream_advances(src, a2, block_tokens(body));
}

/// A term followed by an index, an index in brackets or a call reads back
/// from its tokens.
#[verifier::rlimit(50)]
proof fn lemma_followed_reads(src: Seq<char>, at: int, e: SpecExpression)
    requires
        at <= src.len(),
        canon(e, Place::Term),
        (e.expr matches SpecExpr::Unary { op, .. } && op is TupleIndex) || (e.expr matches SpecExpr::Binary {
            op,
            ..
        } && op is ArrayIndex) || e.expr is Call,
        stream_end(src, at, expr_tokens(e)) is Some,
    ensures
        operand(src, at) == postfix(src, stream_end(src, at, expr_tokens(e))->0, e.expr),
    decreases e, 0int,
{
    match e.expr {
        SpecExpr::Unary { op, rhs } => {
            let i = op->TupleIndex_0;
            let tail = seq![delim('.'), SpecTokenType::Number(i as u64)];
            lemma_stream_concat(src, at, expr_tokens(*rhs), tail);
            lemma_canon_widens(*rhs);
            lemma_expr_head(*rhs);
            lemma_stream_advances(src, at, expr_tokens(*rhs));
            let a1 = stream_end(src, at, expr_tokens(*rhs))->0;
            assert(tail =~= seq![delim('.')] + seq![SpecTokenType::Number(i as u64)]);
            lemma_stream_first(src, a1, delim('.'), seq![SpecTokenType::Number(i as u64)]);
            lemma_scan_token(src, a1);
            let a2 = next_end(src, a1);
            lemma_stream_one(src, a2, SpecTokenType::Number(i as u64));
            lemma_scan_token(src, a2);
            lemma_term_reads(src, at, *rhs);
            assert(untyped(rhs.expr) == *rhs);
            assert(#[verifier::truncate] ((i as u64) as usize) == i);
        },
        SpecExpr::Binary { lhs, op, rhs } => {
            let tail = seq![delim('[')] + (expr_tokens(*rhs) + seq![delim(']')]);
            assert(expr_tokens(e) =~= expr_tokens(*lhs) + tail);
            lemma_stream_concat(src, at, expr_tokens(*lhs), tail);
            lemma_canon_widens(*lhs);
            lemma_expr_head(*lhs);
            lemma_stream_advances(src, at, expr_tokens(*lhs));
            let a1 = stream_end(src, at, expr_tokens(*lhs))->0;
            lemma_stream_first(src, a1, delim('['), expr_tokens(*rhs) + seq![delim(']')]);
            lemma_scan_token(src, a1);
            let a2 = next_end(src, a1);
            lemma_stream_concat(src, a2, expr_tokens(*rhs), seq![delim(']')]);
            lemma_expr_head(*rhs);
            lemma_stream_advances(src, a2, expr_tokens(*rhs));
            let a3 = stream_end(src, a2, expr_tokens(*rhs))->0;
            lemma_stream_one(src, a3, delim(']'));
            lemma_scan_token(src, a3);
            lemma_term_reads(src, at, *lhs);
            lemma_whole_reads(src, a2, *rhs);
            assert(untyped(lhs.expr) == *lhs);
        },
        SpecExpr::Call { func, args } => {
            let tail = seq![delim('(')] + (list_tokens(args, 0, ',') + seq![delim(')')]);
            assert(expr_tokens(e) =~= expr_tokens(*func) + tail);
            lemma_stream_concat(src, at, expr_tokens(*func), tail);
            lemma_canon_widens(*func);
            lemma_expr_head(*func);
            lemma_stream_advances(src, at, expr_tokens(*func));
            let a1 = stream_end(src, at, expr_tokens(*func))->0;
            lemma_stream_first(src, a1, delim('('), list_tokens(args, 0, ',') + seq![delim(')')]);
            lemma_scan_token(src, a1);
            let a2 = next_end(src, a1);
            lemma_term_reads(src, at, *func);
            lemma_arguments_read(src, a2, args, 0, Seq::empty());
            assert(Seq::<SpecExpression>::empty() + args.subrange(0, args.len() as int) =~= args);
            lemma_stream_bounds(src, a2, list_tokens(args, 0, ',') + seq![delim(')')]);
            assert(untyped(func.expr) == *func);
        },
        _ => {},
    }
}

/// A term reads back from its tokens as far as they go: reading it from
/// where it starts is going on, from where its tokens end, with what
/// follows a term.
pub proof fn lemma_term_reads(src: Seq<char>, at: int, e: SpecExpression)
    requires
        at <= src.len(),
        canon(e, Place::Term),
        stream_end(src, at, expr_tokens(e)) matches Some(end) && settled(src, end),
    ensures
        operand(src, at) == postfix(src, stream_end(src, at, expr_tokens(e))->0, e.expr),
    decreases e, 1int,
{
    match e.expr {
        SpecExpr::Value(_) => {
            lemma_value_reads(src, at, e);
        },
        SpecExpr::Reference(_) => {
            lemma_value_reads(src, at, e);
        },
        SpecExpr::Unary { op, rhs } => {
            if op is TupleIndex {
                lemma_followed_reads(src, at, e);
            } else {
                lemma_prefix_reads(src, at, e);
            }
        },
        SpecExpr::Binary { lhs, op, rhs } => {
            if op is ArrayIndex {
                lemma_followed_reads(src, at, e);
            } else {
                lemma_infix_reads(src, at, e);
            }
        },
        SpecExpr::Tuple(_) => {
            lemma_tuple_reads(src, at, e);
        },
        SpecExpr::Array(_) => {
            lemma_array_reads(src, at, e);
        },
        SpecExpr::Let { .. } => {},
        SpecExpr::If { .. } => {
            lemma_conditional_reads(src, at, e);
        },
        SpecExpr::Call { .. } => {
            lemma_followed_reads(src, at, e);
        },
        SpecExpr::While { .. } => {
            lemma_loop_reads(src, at, e);
        },
    }
}

/// A binding reads back from its tokens.
#[verifier::rlimit(50)]
proof fn lemma_binding_reads(src: Seq<char>, at: int, e: SpecExpression, min: u8)
    requires
        at <= src.len(),
        canon(e, Place::Operand),
        e.expr is Let,
        stream_end(src, at, expr_tokens(e)) matches Some(end) && calm(src, end),
    ensures
        expression(src, at, min) == Ok::<(SpecExpression, int), SpecError>(
            (e, stream_end(src, at, expr_tokens(e))->0),
        ),
    decreases e, 0int,
{
    let name = e.expr->Let_name;
    let value = *e.expr->Let_value;
    let ty = e.expr->Let_ty;
    let mutable = e.expr->Let_mutable;
    let word = if mutable {
        Keyword::Var
    } else {
        Keyword::Let
    };
    let from_eq = seq![equals()] + expr_tokens(value);
    let after_name = match ty {
        Some(t) => seq![delim(':')] + (type_tokens(t) + from_eq),
        None => from_eq,
    };
    let after_word = seq![SpecTokenType::Name(name)] + after_name;
    assert(expr_tokens(e) =~= seq![SpecTokenType::Keyword(word)] + after_word);
    lemma_stream_first(src, at, SpecTokenType::Keyword(word), after_word);
    lemma_scan_token(src, at);
    let a1 = next_end(src, at);
    lemma_stream_first(src, a1, SpecTokenType::Name(name), after_name);
    lemma_scan_token(src, a1);
    let a2 = next_end(src, a1);
    lemma_scan_token(src, a2);
    lemma_expr_head(value);
    match ty {
        Some(t) => {
            lemma_stream_first(src, a2, delim(':'), type_tokens(t) + from_eq);
            let a3 = next_end(src, a2);
            lemma_stream_concat(src, a3, type_tokens(t), from_eq);
            lemma_type_head(t);
            lemma_stream_advances(src, a3, type_tokens(t));
            let a4 = stream_end(src, a3, type_tokens(t))->0;
            lemma_stream_first(src, a4, equals(), expr_tokens(value));
            lemma_scan_token(src, a4);
            assert(equals() != arrow()) by {
                assert(seq!['='].len() != seq!['-', '>'].len());
            }
            lemma_type_reads(src, a3, t);
            let a5 = next_end(src, a4);
            lemma_stream_advances(src, a5, expr_tokens(value));
            lemma_whole_reads(src, a5, value);
        },
        None => {
            lemma_stream_first(src, a2, equals(), expr_tokens(value));
            let a3 = next_end(src, a2);
            lemma_stream_advances(src, a3, expr_tokens(value));
            lemma_whole_reads(src, a3, value);
        },
    }
    let end = stream_end(src, at, expr_tokens(e))->0;
    lemma_postfix_ends(src, end, e.expr);
    lemma_binary_ends(src, end, e.expr, min);
    lemma_expression_is(src, at, min);
}

/// An expression that can stand as an operand reads back from its
/// tokens, before a token that ends an expression.
pub proof fn lemma_operand_reads(src: Seq<char>, at: int, e: SpecExpression, min: u8)
    requires
        at <= src.len(),
        canon(e, Place::Operand),
        stream_end(src, at, expr_tokens(e)) matches Some(end) && calm(src, end),
    ensures
        expression(src, at, min) == Ok::<(SpecExpression, int), SpecError>(
            (e, stream_end(src, at, expr_tokens(e))->0),
        ),
    decreases e, 2int,
{
    let end = stream_end(src, at, expr_tokens(e))->0;
    if e.expr is Let {
        lemma_binding_reads(src, at, e, min);
    } else {
        lemma_canon_widens(e);
        lemma_expr_head(e);
        lemma_stream_advances(src, at, expr_tokens(e));
        lemma_term_reads(src, at, e);
        lemma_postfix_ends(src, end, e.expr);
        lemma_binary_ends(src, end, e.expr, min);
        lemma_expression_is(src, at, min);
    }
}

/// An expression in form reads back from its tokens, before a token that
/// ends an expression.
pub proof fn lemma_whole_reads(src: Seq<char>, at: int, e: SpecExpression)
    requires
        at <= src.len(),
        canon(e, Place::Whole),
        stream_end(src, at, expr_tokens(e)) matches Some(end) && calm(src, end),
    ensures
        expression(src, at, 0) == Ok::<(SpecExpression, int), SpecError>(
            (e, stream_end(src, at, expr_tokens(e))->0),
        ),
    decreases e, 3int,
{
    let end = stream_end(src, at, expr_tokens(e))->0;
    match e.expr {
        SpecExpr::Binary { lhs, op, rhs } => {
            if op is Assign {
                let tail = seq![equals()] + expr_tokens(*rhs);
                assert(expr_tokens(e) =~= expr_tokens(*lhs) + tail);
                lemma_stream_concat(src, at, expr_tokens(*lhs), tail);
                lemma_canon_widens(*lhs);
                lemma_expr_head(*lhs);
                lemma_stream_advances(src, at, expr_tokens(*lhs));
                let a1 = stream_end(src, at, expr_tokens(*lhs))->0;
                lemma_stream_first(src, a1, equals(), expr_tokens(*rhs));
                lemma_scan_token(src, a1);
                let a2 = next_end(src, a1);
                lemma_expr_head(*rhs);
                lemma_stream_advances(src, a2, expr_tokens(*rhs));
                lemma_term_reads(src, at, *lhs);
                lemma_postfix_ends(src, a1, lhs.expr);
                lemma_whole_reads(src, a2, *rhs);
                assert(untyped(lhs.expr) == *lhs);
                lemma_binary_ends(
                    src,
                    end,
                    SpecExpr::Binary { lhs: Box::new(*lhs), op, rhs: Box::new(*rhs) },
                    0,
                );
                lemma_expression_is(src, at, 0);
                assert(spec_operator(seq!['=']) == Some(Operator::Assign));
            } else {
                lemma_operand_reads(src, at, e, 0);
            }
        },
        _ => {
            lemma_operand_reads(src, at, e, 0);
        },
    }
}

} // verus!
