//! The grammar, as functions from a source and an index in it to what is
//! parsed there and the index after it.
//!
//! Every function reads tokens with [`scan_token`] and fails with the first
//! error met. A step that starts at `at` and succeeds ends past `at` and
//! within the source, as the lemmas of `progress` show; the functions that
//! depend on each other go on from [`later`] of the two, which is then where
//! the step ended.

use vstd::prelude::*;
use crate::ast::tree::{spec_operator, Operator, SpecExpr, SpecExpression, SpecFunction, SpecValue};
use crate::semantics::types::{spec_unit, Size, SpecType};
use crate::parser::error::SpecError;
use crate::parser::progress::lemma_function;
use crate::parser::scanner::{lemma_scan_token, scan_token};
use crate::parser::tokens::{
    expected_name, expected_number, Keyword, SpecLiteral, SpecToken, SpecTokenType,
};
use crate::text::{all_digits, spec_parse_decimal};

verus! {

/// What a step of the parser gives: a value and the index after it.
pub type Step<A> = Result<(A, int), SpecError>;

/// Where parsing goes on after a step from `at` that ended at `after`.
pub open spec fn later(at: int, after: int) -> int {
    if at < after {
        after
    } else {
        at + 1
    }
}

/// How much of the source is left to read from `at`, and one more.
pub open spec fn left(src: Seq<char>, at: int) -> nat {
    if at <= src.len() {
        (src.len() - at + 1) as nat
    } else {
        0
    }
}

/// How a missing delimiter is described.
pub open spec fn expected_delim(c: char) -> Seq<char> {
    "Delim('"@ + seq![c] + "')"@
}

/// How a missing `fn` is described.
pub open spec fn expected_func() -> Seq<char> {
    "Keyword(Func)"@
}

/// How a missing `=` is described.
pub open spec fn expected_assign() -> Seq<char> {
    "Op(x) if ['='] == x[..]"@
}

/// How a keyword that starts no binding is described.
pub open spec fn expected_binding() -> Seq<char> {
    "Key or Let"@
}

/// The index after the token at `at`, which must be `want`.
pub open spec fn expect(src: Seq<char>, at: int, want: SpecTokenType, what: Seq<char>) -> Result<
    int,
    SpecError,
> {
    match scan_token(src, at) {
        Err(e) => Err(e),
        Ok((tok, end)) => if tok.token == want {
            Ok(end)
        } else {
            Err(SpecError::UnexpectedToken(what, tok))
        },
    }
}

/// The index after the delimiter `c`, which must stand at `at`.
pub open spec fn expect_delim(src: Seq<char>, at: int, c: char) -> Result<int, SpecError> {
    expect(src, at, SpecTokenType::Delim(c), expected_delim(c))
}

/// The name at `at`.
pub open spec fn take_name(src: Seq<char>, at: int) -> Step<Seq<char>> {
    match scan_token(src, at) {
        Err(e) => Err(e),
        Ok((tok, end)) => match tok.token {
            SpecTokenType::Name(n) => Ok((n, end)),
            _ => Err(SpecError::UnexpectedToken(expected_name(), tok)),
        },
    }
}

/// The number at `at`.
pub open spec fn take_number(src: Seq<char>, at: int) -> Step<u64> {
    match scan_token(src, at) {
        Err(e) => Err(e),
        Ok((tok, end)) => match tok.token {
            SpecTokenType::Number(n) => Ok((n, end)),
            _ => Err(SpecError::UnexpectedToken(expected_number(), tok)),
        },
    }
}

/// Whether the token is the `->` of a function type.
pub open spec fn is_arrow(tok: SpecToken) -> bool {
    tok.token == SpecTokenType::Op(seq!['-', '>'])
}

/// The integer type of `bits` bits.
pub open spec fn sized(bits: u8) -> Result<Size, SpecError> {
    if bits == 32 {
        Ok(Size::ThirtyTwo)
    } else {
        Err(SpecError::InvalidSize(bits))
    }
}

/// The type that a name spells: `i` and a width in decimal is an integer
/// type, `bool` and `char` are themselves. `tok` is the token of the name.
pub open spec fn named_type(name: Seq<char>, tok: SpecToken) -> Result<SpecType, SpecError> {
    if name.len() > 1 && name[0] == 'i' && all_digits(name.drop_first()) {
        match spec_parse_decimal(name.drop_first(), 255) {
            Some(bits) => match sized(bits as u8) {
                Ok(size) => Ok(SpecType::Signed(size)),
                Err(e) => Err(e),
            },
            None => Err(SpecError::ParseInt(name.drop_first())),
        }
    } else if name == seq!['b', 'o', 'o', 'l'] {
        Ok(SpecType::Bool)
    } else if name == seq!['c', 'h', 'a', 'r'] {
        Ok(SpecType::Char)
    } else {
        Err(SpecError::InvalidType(tok))
    }
}

/// The type at `at`: a named type, a tuple type in parentheses, an array
/// type `[T; N]`, or a tuple type, `->` and a return type, which is a
/// function type.
#[verifier::opaque]
pub open spec fn type_expr(src: Seq<char>, at: int) -> Step<SpecType>
    decreases left(src, at), 0int,
    when at <= src.len()
{
    match scan_token(src, at) {
        Err(e) => Err(e),
        Ok((tok, a1)) => {
            proof {
                lemma_scan_token(src, at);
            }
            let base: Step<SpecType> = match tok.token {
                SpecTokenType::Name(x) => match named_type(x, tok) {
                    Ok(t) => Ok((t, a1)),
                    Err(e) => Err(e),
                },
                SpecTokenType::Delim('(') => match type_list(src, a1, Seq::empty()) {
                    Ok((tys, a2)) => Ok((SpecType::Tuple(tys), a2)),
                    Err(e) => Err(e),
                },
                SpecTokenType::Delim('[') => match type_expr(src, a1) {
                    Err(e) => Err(e),
                    Ok((elem, a2)) => match expect_delim(src, a2, ';') {
                        Err(e) => Err(e),
                        Ok(a3) => match take_number(src, a3) {
                            Err(e) => Err(e),
                            Ok((n, a4)) => match expect_delim(src, a4, ']') {
                                Err(e) => Err(e),
                                Ok(a5) => Ok(
                                    (
                                        SpecType::Array(
                                            Box::new(elem),
                                            #[verifier::truncate]
                                            (n as usize),
                                        ),
                                        a5,
                                    ),
                                ),
                            },
                        },
                    },
                },
                _ => Err(SpecError::InvalidType(tok)),
            };
            match base {
                Err(e) => Err(e),
                Ok((ty, a6)) => {
                    let a6 = later(at, a6);
                    match scan_token(src, a6) {
                        Err(e) => Err(e),
                        Ok((arrow, a7)) => if is_arrow(arrow) {
                            proof {
                                lemma_scan_token(src, a6);
                            }
                            match type_expr(src, a7) {
                                Err(e) => Err(e),
                                Ok((ret, a8)) => match ty {
                                    SpecType::Tuple(args) => Ok(
                                        (SpecType::Function { args, ret: Box::new(ret) }, a8),
                                    ),
                                    _ => Err(SpecError::InvalidType(tok)),
                                },
                            }
                        } else {
                            Ok((ty, a6))
                        },
                    }
                },
            }
        },
    }
}

/// The types of a tuple type after its `(`, up to and with its `)`, after
/// those of `acc`. A comma may follow a type.
#[verifier::opaque]
pub open spec fn type_list(src: Seq<char>, at: int, acc: Seq<SpecType>) -> Step<Seq<SpecType>>
    decreases left(src, at), 1int,
    when at <= src.len()
{
    match scan_token(src, at) {
        Err(e) => Err(e),
        Ok((tok, a1)) => if tok.token == SpecTokenType::Delim(')') {
            Ok((acc, a1))
        } else {
            match type_expr(src, at) {
                Err(e) => Err(e),
                Ok((ty, a2)) => {
                    let a2 = later(at, a2);
                    match scan_token(src, a2) {
                        Err(e) => Err(e),
                        Ok((sep, a3)) => {
                            proof {
                                lemma_scan_token(src, a2);
                            }
                            if sep.token == SpecTokenType::Delim(',') {
                                type_list(src, a3, acc.push(ty))
                            } else {
                                type_list(src, a2, acc.push(ty))
                            }
                        },
                    }
                },
            }
        },
    }
}

/// The type that a `:` at `at` introduces, if one stands there.
pub open spec fn opt_type(src: Seq<char>, at: int) -> Step<Option<SpecType>> {
    match scan_token(src, at) {
        Err(e) => Err(e),
        Ok((tok, a1)) => if tok.token == SpecTokenType::Delim(':') {
            match type_expr(src, a1) {
                Err(e) => Err(e),
                Ok((ty, a2)) => Ok((Some(ty), a2)),
            }
        } else {
            Ok((None, at))
        },
    }
}

/// A type ends past where it starts.
pub proof fn lemma_type_progress(src: Seq<char>, at: int)
    requires
        at <= src.len(),
    ensures
        type_expr(src, at) matches Ok((_, end)) ==> 0 <= at < end <= src.len(),
    decreases left(src, at), 0int,
{
    reveal(type_expr);
    reveal(type_list);
    lemma_scan_token(src, at);
    match scan_token(src, at) {
        Err(e) => {},
        Ok((tok, a1)) => {
            let base: Step<SpecType> = match tok.token {
                SpecTokenType::Name(x) => match named_type(x, tok) {
                    Ok(t) => Ok((t, a1)),
                    Err(e) => Err(e),
                },
                SpecTokenType::Delim('(') => {
                    lemma_type_list_progress(src, a1, Seq::empty());
                    match type_list(src, a1, Seq::empty()) {
                        Ok((tys, a2)) => Ok((SpecType::Tuple(tys), a2)),
                        Err(e) => Err(e),
                    }
                },
                SpecTokenType::Delim('[') => {
                    lemma_type_progress(src, a1);
                    match type_expr(src, a1) {
                        Err(e) => Err(e),
                        Ok((elem, a2)) => {
                            lemma_scan_token(src, a2);
                            match expect_delim(src, a2, ';') {
                                Err(e) => Err(e),
                                Ok(a3) => {
                                    lemma_scan_token(src, a3);
                                    match take_number(src, a3) {
                                        Err(e) => Err(e),
                                        Ok((n, a4)) => {
                                            lemma_scan_token(src, a4);
                                            match expect_delim(src, a4, ']') {
                                                Err(e) => Err(e),
                                                Ok(a5) => Ok(
                                                    (
                                                        SpecType::Array(
                                                            Box::new(elem),
                                                            #[verifier::truncate]
                                                            (n as usize),
                                                        ),
                                                        a5,
                                                    ),
                                                ),
                                            }
                                        },
                                    }
                                },
                            }
                        },
                    }
                },
                _ => Err(SpecError::InvalidType(tok)),
            };
            match base {
                Err(e) => {},
                Ok((ty, a6)) => {
                    assert(at < a6 <= src.len());
                    lemma_scan_token(src, a6);
                    match scan_token(src, a6) {
                        Err(e) => {},
                        Ok((arrow, a7)) => {
                            if is_arrow(arrow) {
                                lemma_type_progress(src, a7);
                            }
                        },
                    }
                },
            }
        },
    }
}

/// A list of types ends past where it starts.
pub proof fn lemma_type_list_progress(src: Seq<char>, at: int, acc: Seq<SpecType>)
    requires
        at <= src.len(),
    ensures
        type_list(src, at, acc) matches Ok((_, end)) ==> 0 <= at < end <= src.len(),
    decreases left(src, at), 1int,
{
    reveal(type_list);
    reveal(type_expr);
    lemma_scan_token(src, at);
    match scan_token(src, at) {
        Err(e) => {},
        Ok((tok, a1)) => {
            if tok.token != SpecTokenType::Delim(')') {
                lemma_type_progress(src, at);
                match type_expr(src, at) {
                    Err(e) => {},
                    Ok((ty, a2)) => {
                        lemma_scan_token(src, a2);
                        match scan_token(src, a2) {
                            Err(e) => {},
                            Ok((sep, a3)) => {
                                if sep.token == SpecTokenType::Delim(',') {
                                    lemma_type_list_progress(src, a3, acc.push(ty));
                                } else {
                                    lemma_type_list_progress(src, a2, acc.push(ty));
                                }
                            },
                        }
                    },
                }
            }
        },
    }
}


/// An optional type ends where it starts or past it.
pub proof fn lemma_opt_type_progress(src: Seq<char>, at: int)
    requires
        at <= src.len(),
    ensures
        opt_type(src, at) matches Ok((_, end)) ==> at <= end <= src.len(),
{
    lemma_scan_token(src, at);
    match scan_token(src, at) {
        Err(e) => {},
        Ok((tok, a1)) => {
            if tok.token == SpecTokenType::Delim(':') {
                lemma_type_progress(src, a1);
            }
        },
    }
}

/// The level at which the operand of a prefix operator is read: that of the
/// prefix and postfix forms, above every infix operator.
pub open spec fn operand_level() -> u8 {
    5
}

/// The expression `expr` without a type.
pub open spec fn untyped(expr: SpecExpr) -> SpecExpression {
    SpecExpression { expr, ty: None }
}

/// The value that a quoted literal stands for.
pub open spec fn literal_value(l: SpecLiteral) -> SpecValue {
    match l {
        SpecLiteral::String(s) => SpecValue::String(s),
        SpecLiteral::Char(c) => SpecValue::Char(c),
    }
}

/// The primary term whose first token, `tok`, ends at `at`: a literal, a
/// name, a prefix operator and its operand, a conditional, a loop, a
/// binding, a group in parentheses or an array literal.
pub open spec fn primary(src: Seq<char>, at: int, tok: SpecToken) -> Step<SpecExpr>
    decreases left(src, at), 4int,
    when at <= src.len()
{
    match tok.token {
        SpecTokenType::Op(x) => match spec_operator(x) {
            None => Err(SpecError::InvalidOperator(x)),
            Some(op) => if !op.spec_is_unary() {
                Err(SpecError::InvalidOperator(op.spec_name()))
            } else {
                match expression(src, at, operand_level()) {
                    Err(e) => Err(e),
                    Ok((rhs, a2)) => Ok((SpecExpr::Unary { op, rhs: Box::new(rhs) }, a2)),
                }
            },
        },
        SpecTokenType::Number(n) => Ok((SpecExpr::Value(SpecValue::Number(n as i64)), at)),
        SpecTokenType::Literal(l) => Ok((SpecExpr::Value(literal_value(l)), at)),
        SpecTokenType::Name(x) => Ok((SpecExpr::Reference(x), at)),
        SpecTokenType::Keyword(Keyword::True) => Ok((SpecExpr::Value(SpecValue::Bool(true)), at)),
        SpecTokenType::Keyword(Keyword::False) => Ok(
            (SpecExpr::Value(SpecValue::Bool(false)), at),
        ),
        SpecTokenType::Keyword(Keyword::If) => conditional(src, at),
        SpecTokenType::Keyword(Keyword::Else) => Err(
            SpecError::UnexpectedToken(Seq::empty(), tok),
        ),
        SpecTokenType::Keyword(Keyword::While) => while_loop(src, at),
        SpecTokenType::Keyword(key) => binding(src, at, key, tok),
        SpecTokenType::Delim('(') => parenthesized(src, at),
        SpecTokenType::Delim('[') => array(src, at),
        _ => Err(SpecError::UnexpectedToken(Seq::empty(), tok)),
    }
}

/// The expression at `at` whose infix operators all have a precedence of at
/// least `min`: a primary term, the calls and indexings that follow it, then
/// the infix operators and their right operands.
pub open spec fn expression(src: Seq<char>, at: int, min: u8) -> Step<SpecExpression>
    decreases left(src, at), 0int,
    when at <= src.len()
{
    match scan_token(src, at) {
        Err(e) => Err(e),
        Ok((tok, a1)) => if tok.token is Eof {
            Err(SpecError::UnexpectedToken(Seq::empty(), tok))
        } else {
            proof {
                lemma_scan_token(src, at);
            }
            match primary(src, a1, tok) {
                Err(e) => Err(e),
                Ok((p, a2)) => match postfix(src, later(at, a2), p) {
                    Err(e) => Err(e),
                    Ok((q, a3)) => match binary(src, later(at, a3), q, min) {
                        Err(e) => Err(e),
                        Ok((r, a4)) => Ok((untyped(r), a4)),
                    },
                },
            }
        },
    }
}

/// A sequence in braces, from its `{` at `at`.
pub open spec fn block(src: Seq<char>, at: int) -> Step<Seq<SpecExpression>>
    decreases left(src, at), 2int,
    when at <= src.len()
{
    match expect_delim(src, at, '{') {
        Err(e) => Err(e),
        Ok(a1) => {
            proof {
                lemma_scan_token(src, at);
            }
            match sequence(src, a1) {
                Err(e) => Err(e),
                Ok((body, a2)) => match expect_delim(src, later(at, a2), '}') {
                    Err(e) => Err(e),
                    Ok(a3) => Ok((body, a3)),
                },
            }
        },
    }
}

/// The rest of a conditional after its `if`: the condition, the sequence
/// taken when it holds and, after `else`, the one taken when it does not.
pub open spec fn conditional(src: Seq<char>, at: int) -> Step<SpecExpr>
    decreases left(src, at), 3int,
    when at <= src.len()
{
    match expression(src, at, 0) {
        Err(e) => Err(e),
        Ok((cond, a1)) => match block(src, later(at, a1)) {
            Err(e) => Err(e),
            Ok((then_, a2)) => {
                let a2 = later(at, a2);
                match scan_token(src, a2) {
                    Err(e) => Err(e),
                    Ok((tok, a3)) => if tok.token == SpecTokenType::Keyword(Keyword::Else) {
                        proof {
                            lemma_scan_token(src, a2);
                        }
                        match block(src, a3) {
                            Err(e) => Err(e),
                            Ok((else_, a4)) => Ok(
                                (
                                    SpecExpr::If {
                                        cond: Box::new(cond),
                                        then_,
                                        else_: Some(else_),
                                    },
                                    a4,
                                ),
                            ),
                        }
                    } else {
                        Ok((SpecExpr::If { cond: Box::new(cond), then_, else_: None }, a2))
                    },
                }
            },
        },
    }
}

/// The rest of a loop after its `while`: the condition and the body.
pub open spec fn while_loop(src: Seq<char>, at: int) -> Step<SpecExpr>
    decreases left(src, at), 3int,
    when at <= src.len()
{
    match expression(src, at, 0) {
        Err(e) => Err(e),
        Ok((cond, a1)) => match block(src, later(at, a1)) {
            Err(e) => Err(e),
            Ok((body, a2)) => Ok((SpecExpr::While { cond: Box::new(cond), body }, a2)),
        },
    }
}

/// The rest of a binding after its keyword `key`, which was the token
/// `tok`: the name, the declared type if any, `=` and the value. `let` binds
/// for good, `var` binds what can be assigned to again; any other keyword is
/// unexpected, which shows once the rest has been read.
pub open spec fn binding(src: Seq<char>, at: int, key: Keyword, tok: SpecToken) -> Step<SpecExpr>
    decreases left(src, at), 3int,
    when at <= src.len()
{
    match take_name(src, at) {
        Err(e) => Err(e),
        Ok((name, a1)) => {
            proof {
                lemma_scan_token(src, at);
                lemma_opt_type_progress(src, a1);
            }
            match opt_type(src, a1) {
                Err(e) => Err(e),
                Ok((ty, a2)) => match expect(
                    src,
                    a2,
                    SpecTokenType::Op(seq!['=']),
                    expected_assign(),
                ) {
                    Err(e) => Err(e),
                    Ok(a3) => {
                        proof {
                            lemma_scan_token(src, a2);
                        }
                        match expression(src, a3, 0) {
                            Err(e) => Err(e),
                            Ok((value, a4)) => match key {
                                Keyword::Let => Ok(
                                    (
                                        SpecExpr::Let {
                                            name,
                                            value: Box::new(value),
                                            ty,
                                            mutable: false,
                                        },
                                        a4,
                                    ),
                                ),
                                Keyword::Var => Ok(
                                    (
                                        SpecExpr::Let {
                                            name,
                                            value: Box::new(value),
                                            ty,
                                            mutable: true,
                                        },
                                        a4,
                                    ),
                                ),
                                _ => Err(SpecError::UnexpectedToken(expected_binding(), tok)),
                            },
                        }
                    },
                },
            }
        },
    }
}

/// The rest of a group after its `(`: `()` is the empty tuple, an
/// expression and `)` is that expression, an expression and a comma start a
/// tuple.
pub open spec fn parenthesized(src: Seq<char>, at: int) -> Step<SpecExpr>
    decreases left(src, at), 3int,
    when at <= src.len()
{
    match scan_token(src, at) {
        Err(e) => Err(e),
        Ok((tok, a1)) => if tok.token == SpecTokenType::Delim(')') {
            Ok((SpecExpr::Tuple(Seq::empty()), a1))
        } else {
            match expression(src, at, 0) {
                Err(e) => Err(e),
                Ok((first, a2)) => {
                    let a2 = later(at, a2);
                    match scan_token(src, a2) {
                        Err(e) => Err(e),
                        Ok((sep, _)) => if sep.token == SpecTokenType::Delim(',') {
                            match tuple_rest(src, a2, seq![first]) {
                                Err(e) => Err(e),
                                Ok((items, a3)) => Ok((SpecExpr::Tuple(items), a3)),
                            }
                        } else {
                            match expect_delim(src, a2, ')') {
                                Err(e) => Err(e),
                                Ok(a3) => Ok((first.expr, a3)),
                            }
                        },
                    }
                },
            }
        },
    }
}

/// The items of a tuple that follow those of `acc`, each after a comma, up
/// to and with the `)`. A comma may stand before the `)`.
pub open spec fn tuple_rest(src: Seq<char>, at: int, acc: Seq<SpecExpression>) -> Step<
    Seq<SpecExpression>,
>
    decreases left(src, at), 0int,
    when at <= src.len()
{
    match scan_token(src, at) {
        Err(e) => Err(e),
        Ok((tok, a1)) => if tok.token == SpecTokenType::Delim(',') {
            proof {
                lemma_scan_token(src, at);
            }
            match scan_token(src, a1) {
                Err(e) => Err(e),
                Ok((close, a2)) => if close.token == SpecTokenType::Delim(')') {
                    Ok((acc, a2))
                } else {
                    match expression(src, a1, 0) {
                        Err(e) => Err(e),
                        Ok((item, a3)) => tuple_rest(src, later(a1, a3), acc.push(item)),
                    }
                },
            }
        } else {
            match expect_delim(src, at, ')') {
                Err(e) => Err(e),
                Ok(a2) => Ok((acc, a2)),
            }
        },
    }
}

/// The rest of an array literal after its `[`.
pub open spec fn array(src: Seq<char>, at: int) -> Step<SpecExpr>
    decreases left(src, at), 3int,
    when at <= src.len()
{
    match scan_token(src, at) {
        Err(e) => Err(e),
        Ok((tok, a1)) => if tok.token == SpecTokenType::Delim(']') {
            Ok((SpecExpr::Array(Seq::empty()), a1))
        } else {
            match expression(src, at, 0) {
                Err(e) => Err(e),
                Ok((first, a2)) => match array_rest(src, later(at, a2), seq![first]) {
                    Err(e) => Err(e),
                    Ok((items, a3)) => Ok((SpecExpr::Array(items), a3)),
                },
            }
        },
    }
}

/// The items of an array literal that follow those of `acc`, each after a
/// comma, up to and with the `]`.
pub open spec fn array_rest(src: Seq<char>, at: int, acc: Seq<SpecExpression>) -> Step<
    Seq<SpecExpression>,
>
    decreases left(src, at), 0int,
    when at <= src.len()
{
    match scan_token(src, at) {
        Err(e) => Err(e),
        Ok((tok, a1)) => if tok.token == SpecTokenType::Delim(',') {
            proof {
                lemma_scan_token(src, at);
            }
            match expression(src, a1, 0) {
                Err(e) => Err(e),
                Ok((item, a2)) => array_rest(src, later(a1, a2), acc.push(item)),
            }
        } else {
            match expect_delim(src, at, ']') {
                Err(e) => Err(e),
                Ok(a2) => Ok((acc, a2)),
            }
        },
    }
}

/// The sequence at `at`: expressions with `;` between them. A `;` may
/// stand before the `}` that ends the sequence.
pub open spec fn sequence(src: Seq<char>, at: int) -> Step<Seq<SpecExpression>>
    decreases left(src, at), 1int,
    when at <= src.len()
{
    match expression(src, at, 0) {
        Err(e) => Err(e),
        Ok((first, a1)) => sequence_rest(src, later(at, a1), seq![first]),
    }
}

/// The expressions of a sequence that follow those of `acc`, each after a
/// `;`.
pub open spec fn sequence_rest(src: Seq<char>, at: int, acc: Seq<SpecExpression>) -> Step<
    Seq<SpecExpression>,
>
    decreases left(src, at), 0int,
    when at <= src.len()
{
    match scan_token(src, at) {
        Err(e) => Err(e),
        Ok((tok, a1)) => if tok.token == SpecTokenType::Delim(';') {
            proof {
                lemma_scan_token(src, at);
            }
            match scan_token(src, a1) {
                Err(e) => Err(e),
                Ok((close, _)) => if close.token == SpecTokenType::Delim('}') {
                    Ok((acc, a1))
                } else {
                    match expression(src, a1, 0) {
                        Err(e) => Err(e),
                        Ok((item, a2)) => sequence_rest(src, later(a1, a2), acc.push(item)),
                    }
                },
            }
        } else {
            Ok((acc, at))
        },
    }
}

/// What follows a primary term `expr`: any number of argument lists in
/// parentheses, indexes in brackets and tuple indexes after a dot, each
/// applied to what stands before it.
pub open spec fn postfix(src: Seq<char>, at: int, expr: SpecExpr) -> Step<SpecExpr>
    decreases left(src, at), 0int,
    when at <= src.len()
{
    match scan_token(src, at) {
        Err(e) => Err(e),
        Ok((tok, a1)) => {
            proof {
                lemma_scan_token(src, at);
            }
            if tok.token == SpecTokenType::Delim('(') {
                match arguments(src, a1, Seq::empty()) {
                    Err(e) => Err(e),
                    Ok((args, a2)) => postfix(
                        src,
                        later(at, a2),
                        SpecExpr::Call { func: Box::new(untyped(expr)), args },
                    ),
                }
            } else if tok.token == SpecTokenType::Delim('[') {
                match expression(src, a1, 0) {
                    Err(e) => Err(e),
                    Ok((index, a2)) => match expect_delim(src, later(at, a2), ']') {
                        Err(e) => Err(e),
                        Ok(a3) => postfix(
                            src,
                            later(at, a3),
                            SpecExpr::Binary {
                                lhs: Box::new(untyped(expr)),
                                op: Operator::ArrayIndex,
                                rhs: Box::new(index),
                            },
                        ),
                    },
                }
            } else if tok.token == SpecTokenType::Delim('.') {
                match take_number(src, a1) {
                    Err(e) => Err(e),
                    Ok((n, a2)) => postfix(
                        src,
                        later(at, a2),
                        SpecExpr::Unary {
                            op: Operator::TupleIndex(#[verifier::truncate] (n as usize)),
                            rhs: Box::new(untyped(expr)),
                        },
                    ),
                }
            } else {
                Ok((expr, at))
            }
        },
    }
}

/// The arguments of a call that follow those of `acc`, up to and with the
/// `)`. A comma may stand before the `)`.
pub open spec fn arguments(src: Seq<char>, at: int, acc: Seq<SpecExpression>) -> Step<
    Seq<SpecExpression>,
>
    decreases left(src, at), 1int,
    when at <= src.len()
{
    match scan_token(src, at) {
        Err(e) => Err(e),
        Ok((tok, a1)) => if tok.token == SpecTokenType::Delim(')') {
            Ok((acc, a1))
        } else {
            match expression(src, at, 0) {
                Err(e) => Err(e),
                Ok((arg, a2)) => {
                    let a2 = later(at, a2);
                    match scan_token(src, a2) {
                        Err(e) => Err(e),
                        Ok((sep, a3)) => if sep.token == SpecTokenType::Delim(',') {
                            proof {
                                lemma_scan_token(src, a2);
                            }
                            arguments(src, a3, acc.push(arg))
                        } else {
                            match expect_delim(src, a2, ')') {
                                Err(e) => Err(e),
                                Ok(a4) => Ok((acc.push(arg), a4)),
                            }
                        },
                    }
                },
            }
        },
    }
}

/// The infix operators of precedence at least `min` that follow `lhs`, with
/// their right operands. The right operand of an operator is read at the
/// operator's precedence plus its associativity bit, so an operator of the
/// same precedence ends it when the bit is 1 and joins it when the bit is 0.
pub open spec fn binary(src: Seq<char>, at: int, lhs: SpecExpr, min: u8) -> Step<SpecExpr>
    decreases left(src, at), 0int,
    when at <= src.len()
{
    match scan_token(src, at) {
        Err(e) => Err(e),
        Ok((tok, a1)) => match tok.token {
            SpecTokenType::Op(x) => match spec_operator(x) {
                None => Err(SpecError::InvalidOperator(x)),
                Some(op) => if op.spec_prec() < min {
                    Ok((lhs, at))
                } else if !op.spec_is_binary() {
                    Err(SpecError::InvalidOperator(op.spec_name()))
                } else {
                    proof {
                        lemma_scan_token(src, at);
                    }
                    match expression(src, a1, (op.spec_prec() + op.spec_assoc()) as u8) {
                        Err(e) => Err(e),
                        Ok((rhs, a2)) => binary(
                            src,
                            later(at, a2),
                            SpecExpr::Binary {
                                lhs: Box::new(untyped(lhs)),
                                op,
                                rhs: Box::new(rhs),
                            },
                            min,
                        ),
                    }
                },
            },
            _ => Ok((lhs, at)),
        },
    }
}


/// The parameters of a function that follow those of `acc`, each a name,
/// `:` and a type, up to and with the `)`. A comma may stand before the `)`.
pub open spec fn parameters(src: Seq<char>, at: int, acc: Seq<(Seq<char>, SpecType)>) -> Step<
    Seq<(Seq<char>, SpecType)>,
>
    decreases left(src, at),
    when at <= src.len()
{
    match scan_token(src, at) {
        Err(e) => Err(e),
        Ok((tok, a1)) => if tok.token == SpecTokenType::Delim(')') {
            Ok((acc, a1))
        } else {
            proof {
                lemma_scan_token(src, at);
            }
            match take_name(src, at) {
                Err(e) => Err(e),
                Ok((name, a2)) => match expect_delim(src, a2, ':') {
                    Err(e) => Err(e),
                    Ok(a3) => {
                        proof {
                            lemma_scan_token(src, a2);
                            lemma_type_progress(src, a3);
                        }
                        match type_expr(src, a3) {
                            Err(e) => Err(e),
                            Ok((ty, a4)) => match scan_token(src, a4) {
                                Err(e) => Err(e),
                                Ok((sep, a5)) => if sep.token == SpecTokenType::Delim(',') {
                                    proof {
                                        lemma_scan_token(src, a4);
                                    }
                                    parameters(src, a5, acc.push((name, ty)))
                                } else {
                                    match expect_delim(src, a4, ')') {
                                        Err(e) => Err(e),
                                        Ok(a6) => Ok((acc.push((name, ty)), a6)),
                                    }
                                },
                            },
                        }
                    },
                },
            }
        },
    }
}

/// The return type of a function: what follows `->` at `at`, or the unit
/// type where no `->` stands there.
pub open spec fn return_type(src: Seq<char>, at: int) -> Step<SpecType> {
    match scan_token(src, at) {
        Err(e) => Err(e),
        Ok((tok, a1)) => if is_arrow(tok) {
            type_expr(src, a1)
        } else {
            Ok((spec_unit(), at))
        },
    }
}

/// The function at `at`: `fn`, the name, the parameters in parentheses,
/// the return type if any, and the body in braces.
pub open spec fn function(src: Seq<char>, at: int) -> Step<SpecFunction> {
    match expect(src, at, SpecTokenType::Keyword(Keyword::Func), expected_func()) {
        Err(e) => Err(e),
        Ok(a1) => match take_name(src, a1) {
            Err(e) => Err(e),
            Ok((name, a2)) => match expect_delim(src, a2, '(') {
                Err(e) => Err(e),
                Ok(a3) => match parameters(src, a3, Seq::empty()) {
                    Err(e) => Err(e),
                    Ok((args, a4)) => match return_type(src, a4) {
                        Err(e) => Err(e),
                        Ok((ret, a5)) => match block(src, a5) {
                            Err(e) => Err(e),
                            Ok((body, a6)) => Ok((SpecFunction { name, args, ret, body }, a6)),
                        },
                    },
                },
            },
        },
    }
}

/// The functions of a program that follow those of `acc`, up to the end of
/// the source.
pub open spec fn functions(src: Seq<char>, at: int, acc: Seq<SpecFunction>) -> Result<
    Seq<SpecFunction>,
    SpecError,
>
    decreases left(src, at),
    when at <= src.len()
{
    match scan_token(src, at) {
        Err(e) => Err(e),
        Ok((tok, _)) => if tok.token is Eof {
            Ok(acc)
        } else {
            proof {
                lemma_function(src, at);
            }
            match function(src, at) {
                Err(e) => Err(e),
                Ok((f, a1)) => functions(src, a1, acc.push(f)),
            }
        },
    }
}

/// The program that `src` spells: its functions, in order.
pub open spec fn program(src: Seq<char>) -> Result<Seq<SpecFunction>, SpecError> {
    functions(src, 0, Seq::empty())
}

} // verus!
