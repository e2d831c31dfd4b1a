//! Every step of the grammar that succeeds ends within the source and not
//! before where it started; a step that reads a construct ends past where
//! it started.

use vstd::prelude::*;
use crate::ast::tree::{spec_operator, Operator, SpecExpr, SpecExpression};
use crate::parser::grammar::{
    arguments, array, array_rest, binary, binding, block, conditional, expect, expect_delim,
    expected_assign, expected_func, expression, function, is_arrow, left,
    lemma_opt_type_progress, lemma_type_progress, operand_level, opt_type, parameters,
    parenthesized, postfix, primary, return_type, sequence, sequence_rest, take_name,
    take_number, tuple_rest, type_expr, untyped, while_loop, Step,
};
use crate::parser::scanner::{lemma_scan_token, scan_token};
use crate::parser::tokens::{Keyword, SpecToken, SpecTokenType};
use crate::semantics::types::SpecType;

verus! {

/// Whether a step from `at` in a source of `len` characters, if it
/// succeeded, ended past `at` and within the source.
pub open spec fn advances<A>(at: int, len: int, step: Step<A>) -> bool {
    step matches Ok((_, end)) ==> at < end <= len
}

/// Whether a step from `at` in a source of `len` characters, if it
/// succeeded, ended at or past `at` and within the source.
pub open spec fn stays<A>(at: int, len: int, step: Step<A>) -> bool {
    step matches Ok((_, end)) ==> at <= end <= len
}

/// A primary term ends where its first token ends or past it.
pub proof fn lemma_primary(src: Seq<char>, at: int, tok: SpecToken)
    requires
        at <= src.len(),
    ensures
        stays(at, src.len() as int, primary(src, at, tok)),
    decreases left(src, at), 4int,
{
    match tok.token {
        SpecTokenType::Op(x) => match spec_operator(x) {
            None => {},
            Some(op) => {
                if op.spec_is_unary() {
                    lemma_expression(src, at, operand_level());
                }
            },
        },
        SpecTokenType::Keyword(Keyword::True) => {},
        SpecTokenType::Keyword(Keyword::False) => {},
        SpecTokenType::Keyword(Keyword::If) => {
            lemma_conditional(src, at);
        },
        SpecTokenType::Keyword(Keyword::Else) => {},
        SpecTokenType::Keyword(Keyword::While) => {
            lemma_while_loop(src, at);
        },
        SpecTokenType::Keyword(key) => {
            lemma_binding(src, at, key, tok);
        },
        SpecTokenType::Delim('(') => {
            lemma_parenthesized(src, at);
        },
        SpecTokenType::Delim('[') => {
            lemma_array(src, at);
        },
        _ => {},
    }
}

/// An expression ends past where it starts.
pub proof fn lemma_expression(src: Seq<char>, at: int, min: u8)
    requires
        at <= src.len(),
    ensures
        advances(at, src.len() as int, expression(src, at, min)),
    decreases left(src, at), 0int,
{
    lemma_scan_token(src, at);
    match scan_token(src, at) {
        Err(e) => {},
        Ok((tok, a1)) => {
            if !(tok.token is Eof) {
                lemma_primary(src, a1, tok);
                match primary(src, a1, tok) {
                    Err(e) => {},
                    Ok((p, a2)) => {
                        lemma_postfix(src, a2, p);
                        match postfix(src, a2, p) {
                            Err(e) => {},
                            Ok((q, a3)) => {
                                lemma_binary(src, a3, q, min);
                            },
                        }
                    },
                }
            }
        },
    }
}

/// A sequence in braces ends past where it starts.
pub proof fn lemma_block(src: Seq<char>, at: int)
    requires
        at <= src.len(),
    ensures
        advances(at, src.len() as int, block(src, at)),
    decreases left(src, at), 2int,
{
    lemma_scan_token(src, at);
    match expect_delim(src, at, '{') {
        Err(e) => {},
        Ok(a1) => {
            lemma_sequence(src, a1);
            match sequence(src, a1) {
                Err(e) => {},
                Ok((body, a2)) => {
                    lemma_scan_token(src, a2);
                },
            }
        },
    }
}

/// The rest of a conditional ends past where it starts.
pub proof fn lemma_conditional(src: Seq<char>, at: int)
    requires
        at <= src.len(),
    ensures
        advances(at, src.len() as int, conditional(src, at)),
    decreases left(src, at), 3int,
{
    lemma_expression(src, at, 0);
    match expression(src, at, 0) {
        Err(e) => {},
        Ok((cond, a1)) => {
            lemma_block(src, a1);
            match block(src, a1) {
                Err(e) => {},
                Ok((then_, a2)) => {
                    lemma_scan_token(src, a2);
                    match scan_token(src, a2) {
                        Err(e) => {},
                        Ok((tok, a3)) => {
                            if tok.token == SpecTokenType::Keyword(Keyword::Else) {
                                lemma_block(src, a3);
                            }
                        },
                    }
                },
            }
        },
    }
}

/// The rest of a loop ends past where it starts.
pub proof fn lemma_while_loop(src: Seq<char>, at: int)
    requires
        at <= src.len(),
    ensures
        advances(at, src.len() as int, while_loop(src, at)),
    decreases left(src, at), 3int,
{
    lemma_expression(src, at, 0);
    match expression(src, at, 0) {
        Err(e) => {},
        Ok((cond, a1)) => {
            lemma_block(src, a1);
        },
    }
}

/// The rest of a binding ends past where it starts.
pub proof fn lemma_binding(src: Seq<char>, at: int, key: Keyword, tok: SpecToken)
    requires
        at <= src.len(),
    ensures
        advances(at, src.len() as int, binding(src, at, key, tok)),
    decreases left(src, at), 3int,
{
    lemma_scan_token(src, at);
    match take_name(src, at) {
        Err(e) => {},
        Ok((name, a1)) => {
            lemma_opt_type_progress(src, a1);
            match opt_type(src, a1) {
                Err(e) => {},
                Ok((ty, a2)) => {
                    lemma_scan_token(src, a2);
                    match expect(src, a2, SpecTokenType::Op(seq!['=']), expected_assign()) {
                        Err(e) => {},
                        Ok(a3) => {
                            lemma_expression(src, a3, 0);
                        },
                    }
                },
            }
        },
    }
}

/// The rest of a group in parentheses ends past where it starts.
pub proof fn lemma_parenthesized(src: Seq<char>, at: int)
    requires
        at <= src.len(),
    ensures
        advances(at, src.len() as int, parenthesized(src, at)),
    decreases left(src, at), 3int,
{
    lemma_scan_token(src, at);
    match scan_token(src, at) {
        Err(e) => {},
        Ok((tok, a1)) => {
            if tok.token != SpecTokenType::Delim(')') {
                lemma_expression(src, at, 0);
                match expression(src, at, 0) {
                    Err(e) => {},
                    Ok((first, a2)) => {
                        lemma_scan_token(src, a2);
                        match scan_token(src, a2) {
                            Err(e) => {},
                            Ok((sep, _)) => {
                                if sep.token == SpecTokenType::Delim(',') {
                                    lemma_tuple_rest(src, a2, seq![first]);
                                }
                            },
                        }
                    },
                }
            }
        },
    }
}

/// The rest of a tuple ends past where it starts.
pub proof fn lemma_tuple_rest(src: Seq<char>, at: int, acc: Seq<SpecExpression>)
    requires
        at <= src.len(),
    ensures
        advances(at, src.len() as int, tuple_rest(src, at, acc)),
    decreases left(src, at), 0int,
{
    lemma_scan_token(src, at);
    match scan_token(src, at) {
        Err(e) => {},
        Ok((tok, a1)) => {
            if tok.token == SpecTokenType::Delim(',') {
                lemma_scan_token(src, a1);
                match scan_token(src, a1) {
                    Err(e) => {},
                    Ok((close, a2)) => {
                        if close.token != SpecTokenType::Delim(')') {
                            lemma_expression(src, a1, 0);
                            match expression(src, a1, 0) {
                                Err(e) => {},
                                Ok((item, a3)) => {
                                    lemma_tuple_rest(src, a3, acc.push(item));
                                },
                            }
                        }
                    },
                }
            }
        },
    }
}

/// The rest of an array literal ends past where it starts.
pub proof fn lemma_array(src: Seq<char>, at: int)
    requires
        at <= src.len(),
    ensures
        advances(at, src.len() as int, array(src, at)),
    decreases left(src, at), 3int,
{
    lemma_scan_token(src, at);
    match scan_token(src, at) {
        Err(e) => {},
        Ok((tok, a1)) => {
            if tok.token != SpecTokenType::Delim(']') {
                lemma_expression(src, at, 0);
                match expression(src, at, 0) {
                    Err(e) => {},
                    Ok((first, a2)) => {
                        lemma_array_rest(src, a2, seq![first]);
                    },
                }
            }
        },
    }
}

/// The items of an array literal after the first end past where they
/// start, with the `]`.
pub proof fn lemma_array_rest(src: Seq<char>, at: int, acc: Seq<SpecExpression>)
    requires
        at <= src.len(),
    ensures
        advances(at, src.len() as int, array_rest(src, at, acc)),
    decreases left(src, at), 0int,
{
    lemma_scan_token(src, at);
    match scan_token(src, at) {
        Err(e) => {},
        Ok((tok, a1)) => {
            if tok.token == SpecTokenType::Delim(',') {
                lemma_expression(src, a1, 0);
                match expression(src, a1, 0) {
                    Err(e) => {},
                    Ok((item, a2)) => {
                        lemma_array_rest(src, a2, acc.push(item));
                    },
                }
            }
        },
    }
}

/// A sequence ends past where it starts.
pub proof fn lemma_sequence(src: Seq<char>, at: int)
    requires
        at <= src.len(),
    ensures
        advances(at, src.len() as int, sequence(src, at)),
    decreases left(src, at), 1int,
{
    lemma_expression(src, at, 0);
    match expression(src, at, 0) {
        Err(e) => {},
        Ok((first, a1)) => {
            lemma_sequence_rest(src, a1, seq![first]);
        },
    }
}

/// The rest of a sequence ends where it starts or past it.
pub proof fn lemma_sequence_rest(src: Seq<char>, at: int, acc: Seq<SpecExpression>)
    requires
        at <= src.len(),
    ensures
        stays(at, src.len() as int, sequence_rest(src, at, acc)),
    decreases left(src, at), 0int,
{
    lemma_scan_token(src, at);
    match scan_token(src, at) {
        Err(e) => {},
        Ok((tok, a1)) => {
            if tok.token == SpecTokenType::Delim(';') {
                lemma_scan_token(src, a1);
                match scan_token(src, a1) {
                    Err(e) => {},
                    Ok((close, _)) => {
                        if close.token != SpecTokenType::Delim('}') {
                            lemma_expression(src, a1, 0);
                            match expression(src, a1, 0) {
                                Err(e) => {},
                                Ok((item, a2)) => {
                                    lemma_sequence_rest(src, a2, acc.push(item));
                                },
                            }
                        }
                    },
                }
            }
        },
    }
}

/// What follows a primary term ends where it starts or past it.
pub proof fn lemma_postfix(src: Seq<char>, at: int, expr: SpecExpr)
    requires
        at <= src.len(),
    ensures
        stays(at, src.len() as int, postfix(src, at, expr)),
    decreases left(src, at), 0int,
{
    lemma_scan_token(src, at);
    match scan_token(src, at) {
        Err(e) => {},
        Ok((tok, a1)) => {
            if tok.token == SpecTokenType::Delim('(') {
                lemma_arguments(src, a1, Seq::empty());
                match arguments(src, a1, Seq::empty()) {
                    Err(e) => {},
                    Ok((args, a2)) => {
                        lemma_postfix(
                            src,
                            a2,
                            SpecExpr::Call {
                                func: Box::new(untyped(expr)),
                                args,
                            },
                        );
                    },
                }
            } else if tok.token == SpecTokenType::Delim('[') {
                lemma_expression(src, a1, 0);
                match expression(src, a1, 0) {
                    Err(e) => {},
                    Ok((index, a2)) => {
                        lemma_scan_token(src, a2);
                        match expect_delim(src, a2, ']') {
                            Err(e) => {},
                            Ok(a3) => {
                                lemma_postfix(
                                    src,
                                    a3,
                                    SpecExpr::Binary {
                                        lhs: Box::new(untyped(expr)),
                                        op: Operator::ArrayIndex,
                                        rhs: Box::new(index),
                                    },
                                );
                            },
                        }
                    },
                }
            } else if tok.token == SpecTokenType::Delim('.') {
                lemma_scan_token(src, a1);
                match take_number(src, a1) {
                    Err(e) => {},
                    Ok((n, a2)) => {
                        lemma_postfix(
                            src,
                            a2,
                            SpecExpr::Unary {
                                op: Operator::TupleIndex(
                                    #[verifier::truncate]
                                    (n as usize),
                                ),
                                rhs: Box::new(untyped(expr)),
                            },
                        );
                    },
                }
            }
        },
    }
}

/// The arguments of a call end past where they start, with the `)`.
pub proof fn lemma_arguments(src: Seq<char>, at: int, acc: Seq<SpecExpression>)
    requires
        at <= src.len(),
    ensures
        advances(at, src.len() as int, arguments(src, at, acc)),
    decreases left(src, at), 1int,
{
    lemma_scan_token(src, at);
    match scan_token(src, at) {
        Err(e) => {},
        Ok((tok, a1)) => {
            if tok.token != SpecTokenType::Delim(')') {
                lemma_expression(src, at, 0);
                match expression(src, at, 0) {
                    Err(e) => {},
                    Ok((arg, a2)) => {
                        lemma_scan_token(src, a2);
                        match scan_token(src, a2) {
                            Err(e) => {},
                            Ok((sep, a3)) => {
                                if sep.token == SpecTokenType::Delim(',') {
                                    lemma_arguments(src, a3, acc.push(arg));
                                }
                            },
                        }
                    },
                }
            }
        },
    }
}

/// The infix operators that follow a term end where they start or past
/// it.
pub proof fn lemma_binary(src: Seq<char>, at: int, lhs: SpecExpr, min: u8)
    requires
        at <= src.len(),
    ensures
        stays(at, src.len() as int, binary(src, at, lhs, min)),
    decreases left(src, at), 0int,
{
    lemma_scan_token(src, at);
    match scan_token(src, at) {
        Err(e) => {},
        Ok((tok, a1)) => match tok.token {
            SpecTokenType::Op(x) => match spec_operator(x) {
                None => {},
                Some(op) => {
                    if op.spec_prec() >= min && op.spec_is_binary() {
                        let level = (op.spec_prec() + op.spec_assoc()) as u8;
                        lemma_expression(src, a1, level);
                        match expression(src, a1, level) {
                            Err(e) => {},
                            Ok((rhs, a2)) => {
                                lemma_binary(
                                    src,
                                    a2,
                                    SpecExpr::Binary {
                                        lhs: Box::new(untyped(lhs)),
                                        op,
                                        rhs: Box::new(rhs),
                                    },
                                    min,
                                );
                            },
                        }
                    }
                },
            },
            _ => {},
        },
    }
}

/// The parameters of a function end past where they start, with the `)`.
pub proof fn lemma_parameters(src: Seq<char>, at: int, acc: Seq<(Seq<char>, SpecType)>)
    requires
        at <= src.len(),
    ensures
        advances(at, src.len() as int, parameters(src, at, acc)),
    decreases left(src, at),
{
    lemma_scan_token(src, at);
    match scan_token(src, at) {
        Err(e) => {},
        Ok((tok, a1)) => {
            if tok.token != SpecTokenType::Delim(')') {
                match take_name(src, at) {
                    Err(e) => {},
                    Ok((name, a2)) => {
                        lemma_scan_token(src, a2);
                        match expect_delim(src, a2, ':') {
                            Err(e) => {},
                            Ok(a3) => {
                                lemma_type_progress(src, a3);
                                match type_expr(src, a3) {
                                    Err(e) => {},
                                    Ok((ty, a4)) => {
                                        lemma_scan_token(src, a4);
                                        match scan_token(src, a4) {
                                            Err(e) => {},
                                            Ok((sep, a5)) => {
                                                if sep.token == SpecTokenType::Delim(',') {
                                                    lemma_parameters(
                                                        src,
                                                        a5,
                                                        acc.push((name, ty)),
                                                    );
                                                }
                                            },
                                        }
                                    },
                                }
                            },
                        }
                    },
                }
            }
        },
    }
}

/// A function ends past where it starts.
pub proof fn lemma_function(src: Seq<char>, at: int)
    requires
        at <= src.len(),
    ensures
        advances(at, src.len() as int, function(src, at)),
{
    lemma_scan_token(src, at);
    match expect(src, at, SpecTokenType::Keyword(Keyword::Func), expected_func()) {
        Err(e) => {},
        Ok(a1) => {
            lemma_scan_token(src, a1);
            match take_name(src, a1) {
                Err(e) => {},
                Ok((name, a2)) => {
                    lemma_scan_token(src, a2);
                    match expect_delim(src, a2, '(') {
                        Err(e) => {},
                        Ok(a3) => {
                            lemma_parameters(src, a3, Seq::empty());
                            match parameters(src, a3, Seq::empty()) {
                                Err(e) => {},
                                Ok((args, a4)) => {
                                    lemma_scan_token(src, a4);
                                    match scan_token(src, a4) {
                                        Err(e) => {},
                                        Ok((tok, a5)) => {
                                            if is_arrow(tok) {
                                                lemma_type_progress(src, a5);
                                            }
                                        },
                                    }
                                    match return_type(src, a4) {
                                        Err(e) => {},
                                        Ok((ret, a6)) => {
                                            lemma_block(src, a6);
                                        },
                                    }
                                },
                            }
                        },
                    }
                },
            }
        },
    }
}

} // verus!
