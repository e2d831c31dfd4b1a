//! The shape of what the parser gives: whatever the source, a program
//! that is parsed from it carries no types, has only names that the
//! scanner reads as names, only types that can be written, only the
//! operators that can be written, and no empty sequence.

use vstd::prelude::*;
use crate::ast::tree::{spec_operator, Operator, SpecExpr, SpecExpression, SpecFunction};
use crate::parser::grammar::{
    arguments, array, array_rest, binary, binding, block, conditional, expect, expect_delim,
    expected_assign, expected_func, expression, function, functions, is_arrow, left,
    lemma_opt_type_progress, lemma_type_list_progress, lemma_type_progress, named_type,
    operand_level, opt_type, parameters, parenthesized, postfix, primary, program, return_type,
    sequence, sequence_rest, take_name, take_number, tuple_rest, type_expr, type_list, untyped,
    while_loop, Step,
};
use crate::parser::progress::{
    lemma_arguments, lemma_block, lemma_expression, lemma_function, lemma_parameters,
    lemma_postfix, lemma_primary, lemma_sequence,
};
use crate::parser::scanner::{
    in_run, lemma_ends, lemma_scan_token, run_end, scan_token, skip_line, skip_whitespace, Run,
};
use crate::parser::constants::spec_is_comment;
use crate::parser::error::SpecError;
use crate::parser::tokens::{Keyword, SpecToken, SpecTokenType};
use crate::roundtrip::canon::{is_infix, writable};
use crate::roundtrip::layout::is_name;
use crate::semantics::types::{spec_unit, SpecType};
use crate::text::{letter, numeral, space};

verus! {

/// Whether an expression has the shape of what the parser gives.
pub open spec fn shaped(e: SpecExpression) -> bool
    decreases e,
{
    e.ty is None && match e.expr {
        SpecExpr::Value(_) => true,
        SpecExpr::Reference(name) => is_name(name),
        SpecExpr::Unary { op, rhs } => (op is Not || op is Sub || op is TupleIndex) && shaped(*rhs),
        SpecExpr::Binary { lhs, op, rhs } => (op is Assign || op is ArrayIndex || is_infix(op))
            && shaped(*lhs) && shaped(*rhs),
        SpecExpr::Tuple(items) => forall|i: int|
            0 <= i < items.len() ==> shaped(#[trigger] items[i]),
        SpecExpr::Array(items) => forall|i: int|
            0 <= i < items.len() ==> shaped(#[trigger] items[i]),
        SpecExpr::Let { name, value, ty, mutable } => is_name(name) && shaped(*value) && (
        ty matches Some(t) ==> writable(t)),
        SpecExpr::If { cond, then_, else_ } => shaped(*cond) && then_.len() > 0 && (forall|i: int|
            0 <= i < then_.len() ==> shaped(#[trigger] then_[i])) && (else_ matches Some(other)
            ==> other.len() > 0 && (forall|i: int|
            0 <= i < other.len() ==> shaped(#[trigger] other[i]))),
        SpecExpr::Call { func, args } => shaped(*func) && (forall|i: int|
            0 <= i < args.len() ==> shaped(#[trigger] args[i])),
        SpecExpr::While { cond, body } => shaped(*cond) && body.len() > 0 && (forall|i: int|
            0 <= i < body.len() ==> shaped(#[trigger] body[i])),
    }
}

/// Whether every expression of a list has the shape of what the parser
/// gives.
pub open spec fn shaped_all(items: Seq<SpecExpression>) -> bool {
    forall|i: int| 0 <= i < items.len() ==> shaped(#[trigger] items[i])
}

/// Whether parameters have the shape of what the parser gives.
pub open spec fn shaped_params(params: Seq<(Seq<char>, SpecType)>) -> bool {
    forall|i: int|
        0 <= i < params.len() ==> is_name((#[trigger] params[i]).0) && writable(params[i].1)
}

/// Whether a function has the shape of what the parser gives.
pub open spec fn shaped_function(f: SpecFunction) -> bool {
    &&& is_name(f.name)
    &&& shaped_params(f.args)
    &&& writable(f.ret)
    &&& f.body.len() > 0
    &&& shaped_all(f.body)
}

/// Whether a program has the shape of what the parser gives.
pub open spec fn shaped_program(funcs: Seq<SpecFunction>) -> bool {
    forall|i: int| 0 <= i < funcs.len() ==> shaped_function(#[trigger] funcs[i])
}

/// Where the skipping of blanks stops within the source, no blank stands.
proof fn lemma_skipped(src: Seq<char>, i: int)
    ensures
        ({
            let j = skip_whitespace(src, i);
            0 <= j < src.len() ==> !space(src[j])
        }),
    decreases src.len() - i,
{
    if 0 <= i < src.len() && space(src[i]) {
        lemma_skipped(src, i + 1);
    }
}

/// Every character of a run belongs to the class of the run.
proof fn lemma_run_class(src: Seq<char>, i: int, run: Run, k: int)
    requires
        0 <= i <= k < run_end(src, i, run),
    ensures
        in_run(run, src[k]),
        k < src.len(),
    decreases src.len() - i,
{
    if 0 <= i < src.len() && in_run(run, src[i]) {
        if k > i {
            lemma_run_class(src, i + 1, run, k);
        }
    }
}

/// A name that the scanner gives is a name that can be written.
pub proof fn lemma_scanned_name(src: Seq<char>, i: int)
    ensures
        scan_token(src, i) matches Ok((tok, _)) ==> (tok.token matches SpecTokenType::Name(w)
            ==> is_name(w)),
    decreases src.len() - i,
{
    reveal(scan_token);
    let j = skip_whitespace(src, i);
    lemma_skipped(src, i);
    if 0 <= i <= src.len() {
        lemma_ends(src, i, Run::Digits);
        if 0 <= j < src.len() {
            lemma_ends(src, j, Run::Word);
            if numeral(src[j]) {
            } else if letter(src[j]) {
                let end = run_end(src, j, Run::Word);
                let word = src.subrange(j, end);
                assert(word[0] == src[j]);
                assert forall|k: int| 0 <= k < word.len() implies in_run(
                    Run::Word,
                    #[trigger] word[k],
                ) by {
                    lemma_run_class(src, j, Run::Word, j + k);
                }
            } else if spec_is_comment(src[j]) {
                lemma_ends(src, j, Run::Digits);
                lemma_scanned_name(src, skip_line(src, j));
            }
        }
    }
}

/// A type that is parsed can be written.
pub proof fn lemma_type_writable(src: Seq<char>, at: int)
    requires
        at <= src.len(),
    ensures
        type_expr(src, at) matches Ok((t, _)) ==> writable(t),
    decreases left(src, at), 0int,
{
    reveal(type_expr);
    reveal(type_list);
    lemma_scan_token(src, at);
    match scan_token(src, at) {
        Err(e) => {},
        Ok((tok, a1)) => {
            let base: Step<SpecType> = match tok.token {
                SpecTokenType::Name(x) => match named_type(x, tok) {
                    Ok(t) => Ok((t, a1)),
                    Err(e) => Err(e),
                },
                SpecTokenType::Delim('(') => {
                    lemma_type_list_progress(src, a1, Seq::empty());
                    lemma_type_list_writable(src, a1, Seq::empty());
                    match type_list(src, a1, Seq::empty()) {
                        Ok((tys, a2)) => Ok((SpecType::Tuple(tys), a2)),
                        Err(e) => Err(e),
                    }
                },
                SpecTokenType::Delim('[') => {
                    lemma_type_progress(src, a1);
                    lemma_type_writable(src, a1);
                    match type_expr(src, a1) {
                        Err(e) => Err(e),
                        Ok((elem, a2)) => {
                            lemma_scan_token(src, a2);
                            match expect_delim(src, a2, ';') {
                                Err(e) => Err(e),
                                Ok(a3) => {
                                    lemma_scan_token(src, a3);
                                    match take_number(src, a3) {
                                        Err(e) => Err(e),
                                        Ok((n, a4)) => {
                                            lemma_scan_token(src, a4);
                                            match expect_delim(src, a4, ']') {
                                                Err(e) => Err(e),
                                                Ok(a5) => Ok(
                                                    (
                                                        SpecType::Array(
                                                            Box::new(elem),
                                                            #[verifier::truncate]
                                                            (n as usize),
                                                        ),
                                                        a5,
                                                    ),
                                                ),
                                            }
                                        },
                                    }
                                },
                            }
                        },
                    }
                },
                _ => Err(SpecError::InvalidType(tok)),
            };
            match base {
                Err(e) => {},
                Ok((ty, a6)) => {
                    assert(writable(ty));
                    assert(at < a6 <= src.len());
                    lemma_scan_token(src, a6);
                    match scan_token(src, a6) {
                        Err(e) => {},
                        Ok((arrow, a7)) => {
                            if is_arrow(arrow) {
                                lemma_type_writable(src, a7);
                            }
                        },
                    }
                },
            }
        },
    }
}

/// The types of a list that is parsed can be written.
pub proof fn lemma_type_list_writable(src: Seq<char>, at: int, acc: Seq<SpecType>)
    requires
        at <= src.len(),
        forall|i: int| 0 <= i < acc.len() ==> writable(#[trigger] acc[i]),
    ensures
        type_list(src, at, acc) matches Ok((ts, _)) ==> (forall|i: int|
            0 <= i < ts.len() ==> writable(#[trigger] ts[i])),
    decreases left(src, at), 1int,
{
    reveal(type_list);
    reveal(type_expr);
    lemma_scan_token(src, at);
    match scan_token(src, at) {
        Err(e) => {},
        Ok((tok, a1)) => {
            if tok.token != SpecTokenType::Delim(')') {
                lemma_type_progress(src, at);
                lemma_type_writable(src, at);
                match type_expr(src, at) {
                    Err(e) => {},
                    Ok((ty, a2)) => {
                        lemma_scan_token(src, a2);
                        match scan_token(src, a2) {
                            Err(e) => {},
                            Ok((sep, a3)) => {
                                if sep.token == SpecTokenType::Delim(',') {
                                    lemma_type_list_writable(src, a3, acc.push(ty));
                                } else {
                                    lemma_type_list_writable(src, a2, acc.push(ty));
                                }
                            },
                        }
                    },
                }
            }
        },
    }
}

/// A primary term that is parsed has the shape of what the parser gives.
pub proof fn lemma_primary_shaped(src: Seq<char>, at: int, tok: SpecToken)
    requires
        at <= src.len(),
        tok.token matches SpecTokenType::Name(x) ==> is_name(x),
    ensures
        primary(src, at, tok) matches Ok((p, _)) ==> shaped(untyped(p)),
    decreases left(src, at), 4int,
{
    match tok.token {
        SpecTokenType::Op(x) => match spec_operator(x) {
            None => {},
            Some(op) => {
                if op.spec_is_unary() {
                    lemma_expression_shaped(src, at, operand_level());
                }
            },
        },
        SpecTokenType::Keyword(Keyword::True) => {},
        SpecTokenType::Keyword(Keyword::False) => {},
        SpecTokenType::Keyword(Keyword::If) => {
            lemma_conditional_shaped(src, at);
        },
        SpecTokenType::Keyword(Keyword::Else) => {},
        SpecTokenType::Keyword(Keyword::While) => {
            lemma_while_loop_shaped(src, at);
        },
        SpecTokenType::Keyword(key) => {
            lemma_binding_shaped(src, at, key, tok);
        },
        SpecTokenType::Delim('(') => {
            lemma_parenthesized_shaped(src, at);
        },
        SpecTokenType::Delim('[') => {
            lemma_array_shaped(src, at);
        },
        _ => {},
    }
}

/// An expression that is parsed has the shape of what the parser gives.
pub proof fn lemma_expression_shaped(src: Seq<char>, at: int, min: u8)
    requires
        at <= src.len(),
    ensures
        expression(src, at, min) matches Ok((e, _)) ==> shaped(e),
    decreases left(src, at), 0int,
{
    lemma_scan_token(src, at);
    lemma_scanned_name(src, at);
    match scan_token(src, at) {
        Err(e) => {},
        Ok((tok, a1)) => {
            if !(tok.token is Eof) {
                lemma_primary(src, a1, tok);
                lemma_primary_shaped(src, a1, tok);
                match primary(src, a1, tok) {
                    Err(e) => {},
                    Ok((p, a2)) => {
                        lemma_postfix(src, a2, p);
                        lemma_postfix_shaped(src, a2, p);
                        match postfix(src, a2, p) {
                            Err(e) => {},
                            Ok((q, a3)) => {
                                lemma_binary_shaped(src, a3, q, min);
                            },
                        }
                    },
                }
            }
        },
    }
}

/// A sequence in braces that is parsed is not empty, and its expressions
/// have the shape of what the parser gives.
pub proof fn lemma_block_shaped(src: Seq<char>, at: int)
    requires
        at <= src.len(),
    ensures
        block(src, at) matches Ok((body, _)) ==> body.len() > 0 && shaped_all(body),
    decreases left(src, at), 2int,
{
    lemma_scan_token(src, at);
    match expect_delim(src, at, '{') {
        Err(e) => {},
        Ok(a1) => {
            lemma_sequence(src, a1);
            lemma_sequence_shaped(src, a1);
        },
    }
}

/// A conditional that is parsed has the shape of what the parser gives.
pub proof fn lemma_conditional_shaped(src: Seq<char>, at: int)
    requires
        at <= src.len(),
    ensures
        conditional(src, at) matches Ok((p, _)) ==> shaped(untyped(p)),
    decreases left(src, at), 3int,
{
    lemma_expression(src, at, 0);
    lemma_expression_shaped(src, at, 0);
    match expression(src, at, 0) {
        Err(e) => {},
        Ok((cond, a1)) => {
            lemma_block(src, a1);
            lemma_block_shaped(src, a1);
            match block(src, a1) {
                Err(e) => {},
                Ok((then_, a2)) => {
                    lemma_scan_token(src, a2);
                    match scan_token(src, a2) {
                        Err(e) => {},
                        Ok((tok, a3)) => {
                            if tok.token == SpecTokenType::Keyword(Keyword::Else) {
                                lemma_block_shaped(src, a3);
                            }
                        },
                    }
                },
            }
        },
    }
}

/// A loop that is parsed has the shape of what the parser gives.
pub proof fn lemma_while_loop_shaped(src: Seq<char>, at: int)
    requires
        at <= src.len(),
    ensures
        while_loop(src, at) matches Ok((p, _)) ==> shaped(untyped(p)),
    decreases left(src, at), 3int,
{
    lemma_expression(src, at, 0);
    lemma_expression_shaped(src, at, 0);
    match expression(src, at, 0) {
        Err(e) => {},
        Ok((cond, a1)) => {
            lemma_block_shaped(src, a1);
        },
    }
}

/// An optional type that is parsed can be written.
pub proof fn lemma_opt_type_writable(src: Seq<char>, at: int)
    requires
        at <= src.len(),
    ensures
        opt_type(src, at) matches Ok((Some(t), _)) ==> writable(t),
{
    lemma_scan_token(src, at);
    match scan_token(src, at) {
        Err(e) => {},
        Ok((tok, a1)) => {
            if tok.token == SpecTokenType::Delim(':') {
                lemma_type_writable(src, a1);
            }
        },
    }
}

/// A binding that is parsed has the shape of what the parser gives.
pub proof fn lemma_binding_shaped(src: Seq<char>, at: int, key: Keyword, tok: SpecToken)
    requires
        at <= src.len(),
    ensures
        binding(src, at, key, tok) matches Ok((p, _)) ==> shaped(untyped(p)),
    decreases left(src, at), 3int,
{
    lemma_scan_token(src, at);
    lemma_scanned_name(src, at);
    match take_name(src, at) {
        Err(e) => {},
        Ok((name, a1)) => {
            lemma_opt_type_progress(src, a1);
            lemma_opt_type_writable(src, a1);
            match opt_type(src, a1) {
                Err(e) => {},
                Ok((ty, a2)) => {
                    lemma_scan_token(src, a2);
                    match expect(src, a2, SpecTokenType::Op(seq!['=']), expected_assign()) {
                        Err(e) => {},
                        Ok(a3) => {
                            lemma_expression_shaped(src, a3, 0);
                        },
                    }
                },
            }
        },
    }
}

/// A group in parentheses that is parsed has the shape of what the parser
/// gives.
pub proof fn lemma_parenthesized_shaped(src: Seq<char>, at: int)
    requires
        at <= src.len(),
    ensures
        parenthesized(src, at) matches Ok((p, _)) ==> shaped(untyped(p)),
    decreases left(src, at), 3int,
{
    lemma_scan_token(src, at);
    match scan_token(src, at) {
        Err(e) => {},
        Ok((tok, a1)) => {
            if tok.token != SpecTokenType::Delim(')') {
                lemma_expression(src, at, 0);
                lemma_expression_shaped(src, at, 0);
                match expression(src, at, 0) {
                    Err(e) => {},
                    Ok((first, a2)) => {
                        assert(untyped(first.expr) == first);
                        lemma_scan_token(src, a2);
                        match scan_token(src, a2) {
                            Err(e) => {},
                            Ok((sep, _)) => {
                                if sep.token == SpecTokenType::Delim(',') {
                                    lemma_tuple_rest_shaped(src, a2, seq![first]);
                                }
                            },
                        }
                    },
                }
            }
        },
    }
}

/// The items of a tuple that is parsed have the shape of what the parser
/// gives.
pub proof fn lemma_tuple_rest_shaped(src: Seq<char>, at: int, acc: Seq<SpecExpression>)
    requires
        at <= src.len(),
        shaped_all(acc),
    ensures
        tuple_rest(src, at, acc) matches Ok((items, _)) ==> shaped_all(items),
    decreases left(src, at), 0int,
{
    lemma_scan_token(src, at);
    match scan_token(src, at) {
        Err(e) => {},
        Ok((tok, a1)) => {
            if tok.token == SpecTokenType::Delim(',') {
                lemma_scan_token(src, a1);
                match scan_token(src, a1) {
                    Err(e) => {},
                    Ok((close, a2)) => {
                        if close.token != SpecTokenType::Delim(')') {
                            lemma_expression(src, a1, 0);
                            lemma_expression_shaped(src, a1, 0);
                            match expression(src, a1, 0) {
                                Err(e) => {},
                                Ok((item, a3)) => {
                                    lemma_tuple_rest_shaped(src, a3, acc.push(item));
                                },
                            }
                        }
                    },
                }
            }
        },
    }
}

/// An array literal that is parsed has the shape of what the parser gives.
pub proof fn lemma_array_shaped(src: Seq<char>, at: int)
    requires
        at <= src.len(),
    ensures
        array(src, at) matches Ok((p, _)) ==> shaped(untyped(p)),
    decreases left(src, at), 3int,
{
    lemma_scan_token(src, at);
    match scan_token(src, at) {
        Err(e) => {},
        Ok((tok, a1)) => {
            if tok.token != SpecTokenType::Delim(']') {
                lemma_expression(src, at, 0);
                lemma_expression_shaped(src, at, 0);
                match expression(src, at, 0) {
                    Err(e) => {},
                    Ok((first, a2)) => {
                        lemma_array_rest_shaped(src, a2, seq![first]);
                    },
                }
            }
        },
    }
}

/// The items of an array literal that is parsed have the shape of what
/// the parser gives.
pub proof fn lemma_array_rest_shaped(src: Seq<char>, at: int, acc: Seq<SpecExpression>)
    requires
        at <= src.len(),
        shaped_all(acc),
    ensures
        array_rest(src, at, acc) matches Ok((items, _)) ==> shaped_all(items),
    decreases left(src, at), 0int,
{
    lemma_scan_token(src, at);
    match scan_token(src, at) {
        Err(e) => {},
        Ok((tok, a1)) => {
            if tok.token == SpecTokenType::Delim(',') {
                lemma_expression(src, a1, 0);
                lemma_expression_shaped(src, a1, 0);
                match expression(src, a1, 0) {
                    Err(e) => {},
                    Ok((item, a2)) => {
                        lemma_array_rest_shaped(src, a2, acc.push(item));
                    },
                }
            }
        },
    }
}

/// A sequence that is parsed is not empty, and its expressions have the
/// shape of what the parser gives.
pub proof fn lemma_sequence_shaped(src: Seq<char>, at: int)
    requires
        at <= src.len(),
    ensures
        sequence(src, at) matches Ok((items, _)) ==> items.len() > 0 && shaped_all(items),
    decreases left(src, at), 1int,
{
    lemma_expression(src, at, 0);
    lemma_expression_shaped(src, at, 0);
    match expression(src, at, 0) {
        Err(e) => {},
        Ok((first, a1)) => {
            lemma_sequence_rest_shaped(src, a1, seq![first]);
        },
    }
}

/// The expressions of a sequence that is parsed have the shape of what
/// the parser gives.
pub proof fn lemma_sequence_rest_shaped(src: Seq<char>, at: int, acc: Seq<SpecExpression>)
    requires
        at <= src.len(),
        acc.len() > 0,
        shaped_all(acc),
    ensures
        sequence_rest(src, at, acc) matches Ok((items, _)) ==> items.len() > 0 && shaped_all(
            items,
        ),
    decreases left(src, at), 0int,
{
    lemma_scan_token(src, at);
    match scan_token(src, at) {
        Err(e) => {},
        Ok((tok, a1)) => {
            if tok.token == SpecTokenType::Delim(';') {
                lemma_scan_token(src, a1);
                match scan_token(src, a1) {
                    Err(e) => {},
                    Ok((close, _)) => {
                        if close.token != SpecTokenType::Delim('}') {
                            lemma_expression(src, a1, 0);
                            lemma_expression_shaped(src, a1, 0);
                            match expression(src, a1, 0) {
                                Err(e) => {},
                                Ok((item, a2)) => {
                                    lemma_sequence_rest_shaped(src, a2, acc.push(item));
                                },
                            }
                        }
                    },
                }
            }
        },
    }
}

/// What follows a primary term keeps the shape of what the parser gives.
pub proof fn lemma_postfix_shaped(src: Seq<char>, at: int, expr: SpecExpr)
    requires
        at <= src.len(),
        shaped(untyped(expr)),
    ensures
        postfix(src, at, expr) matches Ok((q, _)) ==> shaped(untyped(q)),
    decreases left(src, at), 0int,
{
    lemma_scan_token(src, at);
    match scan_token(src, at) {
        Err(e) => {},
        Ok((tok, a1)) => {
            if tok.token == SpecTokenType::Delim('(') {
                lemma_arguments(src, a1, Seq::empty());
                lemma_arguments_shaped(src, a1, Seq::empty());
                match arguments(src, a1, Seq::empty()) {
                    Err(e) => {},
                    Ok((args, a2)) => {
                        lemma_postfix_shaped(
                            src,
                            a2,
                            SpecExpr::Call { func: Box::new(untyped(expr)), args },
                        );
                    },
                }
            } else if tok.token == SpecTokenType::Delim('[') {
                lemma_expression(src, a1, 0);
                lemma_expression_shaped(src, a1, 0);
                match expression(src, a1, 0) {
                    Err(e) => {},
                    Ok((index, a2)) => {
                        lemma_scan_token(src, a2);
                        match expect_delim(src, a2, ']') {
                            Err(e) => {},
                            Ok(a3) => {
                                lemma_postfix_shaped(
                                    src,
                                    a3,
                                    SpecExpr::Binary {
                                        lhs: Box::new(untyped(expr)),
                                        op: Operator::ArrayIndex,
                                        rhs: Box::new(index),
                                    },
                                );
                            },
                        }
                    },
                }
            } else if tok.token == SpecTokenType::Delim('.') {
                lemma_scan_token(src, a1);
                match take_number(src, a1) {
                    Err(e) => {},
                    Ok((n, a2)) => {
                        lemma_postfix_shaped(
                            src,
                            a2,
                            SpecExpr::Unary {
                                op: Operator::TupleIndex(
                                    #[verifier::truncate]
                                    (n as usize),
                                ),
                                rhs: Box::new(untyped(expr)),
                            },
                        );
                    },
                }
            }
        },
    }
}

/// The arguments of a call that is parsed have the shape of what the
/// parser gives.
pub proof fn lemma_arguments_shaped(src: Seq<char>, at: int, acc: Seq<SpecExpression>)
    requires
        at <= src.len(),
        shaped_all(acc),
    ensures
        arguments(src, at, acc) matches Ok((args, _)) ==> shaped_all(args),
    decreases left(src, at), 1int,
{
    lemma_scan_token(src, at);
    match scan_token(src, at) {
        Err(e) => {},
        Ok((tok, a1)) => {
            if tok.token != SpecTokenType::Delim(')') {
                lemma_expression(src, at, 0);
                lemma_expression_shaped(src, at, 0);
                match expression(src, at, 0) {
                    Err(e) => {},
                    Ok((arg, a2)) => {
                        lemma_scan_token(src, a2);
                        match scan_token(src, a2) {
                            Err(e) => {},
                            Ok((sep, a3)) => {
                                if sep.token == SpecTokenType::Delim(',') {
                                    lemma_arguments_shaped(src, a3, acc.push(arg));
                                }
                            },
                        }
                    },
                }
            }
        },
    }
}

/// The infix operators that follow a term keep the shape of what the
/// parser gives.
pub proof fn lemma_binary_shaped(src: Seq<char>, at: int, lhs: SpecExpr, min: u8)
    requires
        at <= src.len(),
        shaped(untyped(lhs)),
    ensures
        binary(src, at, lhs, min) matches Ok((r, _)) ==> shaped(untyped(r)),
    decreases left(src, at), 0int,
{
    lemma_scan_token(src, at);
    match scan_token(src, at) {
        Err(e) => {},
        Ok((tok, a1)) => match tok.token {
            SpecTokenType::Op(x) => match spec_operator(x) {
                None => {},
                Some(op) => {
                    if op.spec_prec() >= min && op.spec_is_binary() {
                        let level = (op.spec_prec() + op.spec_assoc()) as u8;
                        lemma_expression(src, a1, level);
                        lemma_expression_shaped(src, a1, level);
                        match expression(src, a1, level) {
                            Err(e) => {},
                            Ok((rhs, a2)) => {
                                lemma_binary_shaped(
                                    src,
                                    a2,
                                    SpecExpr::Binary {
                                        lhs: Box::new(untyped(lhs)),
                                        op,
                                        rhs: Box::new(rhs),
                                    },
                                    min,
                                );
                            },
                        }
                    }
                },
            },
            _ => {},
        },
    }
}

/// The parameters of a function that is parsed have names that can be
/// written and types that can be written.
pub proof fn lemma_parameters_shaped(src: Seq<char>, at: int, acc: Seq<(Seq<char>, SpecType)>)
    requires
        at <= src.len(),
        shaped_params(acc),
    ensures
        parameters(src, at, acc) matches Ok((params, _)) ==> shaped_params(params),
    decreases left(src, at),
{
    lemma_scan_token(src, at);
    lemma_scanned_name(src, at);
    match scan_token(src, at) {
        Err(e) => {},
        Ok((tok, a1)) => {
            if tok.token != SpecTokenType::Delim(')') {
                match take_name(src, at) {
                    Err(e) => {},
                    Ok((name, a2)) => {
                        lemma_scan_token(src, a2);
                        match expect_delim(src, a2, ':') {
                            Err(e) => {},
                            Ok(a3) => {
                                lemma_type_progress(src, a3);
                                lemma_type_writable(src, a3);
                                match type_expr(src, a3) {
                                    Err(e) => {},
                                    Ok((ty, a4)) => {
                                        lemma_scan_token(src, a4);
                                        match scan_token(src, a4) {
                                            Err(e) => {},
                                            Ok((sep, a5)) => {
                                                if sep.token == SpecTokenType::Delim(',') {
                                                    lemma_parameters_shaped(
                                                        src,
                                                        a5,
                                                        acc.push((name, ty)),
                                                    );
                                                }
                                            },
                                        }
                                    },
                                }
                            },
                        }
                    },
                }
            }
        },
    }
}

/// A function that is parsed has the shape of what the parser gives.
pub proof fn lemma_function_shaped(src: Seq<char>, at: int)
    requires
        at <= src.len(),
    ensures
        function(src, at) matches Ok((f, _)) ==> shaped_function(f),
{
    lemma_scan_token(src, at);
    match expect(src, at, SpecTokenType::Keyword(Keyword::Func), expected_func()) {
        Err(e) => {},
        Ok(a1) => {
            lemma_scan_token(src, a1);
            lemma_scanned_name(src, a1);
            match take_name(src, a1) {
                Err(e) => {},
                Ok((name, a2)) => {
                    lemma_scan_token(src, a2);
                    match expect_delim(src, a2, '(') {
                        Err(e) => {},
                        Ok(a3) => {
                            lemma_parameters(src, a3, Seq::empty());
                            lemma_parameters_shaped(src, a3, Seq::empty());
                            match parameters(src, a3, Seq::empty()) {
                                Err(e) => {},
                                Ok((args, a4)) => {
                                    lemma_scan_token(src, a4);
                                    match scan_token(src, a4) {
                                        Err(e) => {},
                                        Ok((tok, a5)) => {
                                            if is_arrow(tok) {
                                                lemma_type_progress(src, a5);
                                                lemma_type_writable(src, a5);
                                            }
                                        },
                                    }
                                    match return_type(src, a4) {
                                        Err(e) => {},
                                        Ok((ret, a6)) => {
                                            assert(writable(spec_unit()));
                                            lemma_block_shaped(src, a6);
                                        },
                                    }
                                },
                            }
                        },
                    }
                },
            }
        },
    }
}

/// The functions that are parsed have the shape of what the parser gives.
pub proof fn lemma_functions_shaped(src: Seq<char>, at: int, acc: Seq<SpecFunction>)
    requires
        at <= src.len(),
        shaped_program(acc),
    ensures
        functions(src, at, acc) matches Ok(funcs) ==> shaped_program(funcs),
    decreases left(src, at),
{
    lemma_scan_token(src, at);
    match scan_token(src, at) {
        Err(e) => {},
        Ok((tok, _)) => {
            if !(tok.token is Eof) {
                lemma_function(src, at);
                lemma_function_shaped(src, at);
                match function(src, at) {
                    Err(e) => {},
                    Ok((f, a1)) => {
                        lemma_functions_shaped(src, a1, acc.push(f));
                    },
                }
            }
        },
    }
}

/// Whatever the source, the program that is parsed from it has the shape
/// of what the parser gives: it carries no types, its names are names that
/// the scanner reads, its types and operators can be written, and none of
/// its sequences is empty.
pub proof fn law_parsed_shape(src: Seq<char>)
    ensures
        program(src) matches Ok(funcs) ==> shaped_program(funcs),
{
    lemma_functions_shaped(src, 0, Seq::empty());
}

} // verus!
