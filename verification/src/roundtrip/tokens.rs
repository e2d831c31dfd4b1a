//! The tokens that a tree is printed as, in order.

use vstd::prelude::*;
use crate::ast::prettyprint::operator_text;
use crate::ast::tree::{Operator, SpecExpr, SpecExpression, SpecFunction, SpecValue};
use crate::parser::tokens::{Keyword, SpecLiteral, SpecTokenType};
use crate::semantics::types::{Size, SpecType};

verus! {

/// A list of tokens.
pub type Tokens = Seq<SpecTokenType>;

/// The delimiter `c`, as a token.
pub open spec fn delim(c: char) -> SpecTokenType {
    SpecTokenType::Delim(c)
}

/// The `->` of function types and return types, as a token.
pub open spec fn arrow() -> SpecTokenType {
    SpecTokenType::Op(seq!['-', '>'])
}

/// The `=` of bindings and assignments, as a token.
pub open spec fn equals() -> SpecTokenType {
    SpecTokenType::Op(seq!['='])
}

/// The tokens of the types of `ts` from index `i` on, with a comma between
/// each two.
pub open spec fn type_list_tokens(ts: Seq<SpecType>, i: int) -> Tokens
    decreases ts, ts.len() - i,
{
    if !(0 <= i < ts.len()) {
        Seq::empty()
    } else if i + 1 == ts.len() {
        type_tokens(ts[i])
    } else {
        type_tokens(ts[i]) + seq![delim(',')] + type_list_tokens(ts, i + 1)
    }
}

/// The tokens of a type.
pub open spec fn type_tokens(t: SpecType) -> Tokens
    decreases t, 0int,
{
    match t {
        SpecType::Signed(Size::ThirtyTwo) => seq![SpecTokenType::Name(seq!['i', '3', '2'])],
        SpecType::Bool => seq![SpecTokenType::Name(seq!['b', 'o', 'o', 'l'])],
        SpecType::Char => seq![SpecTokenType::Name(seq!['c', 'h', 'a', 'r'])],
        SpecType::Tuple(ts) => seq![delim('(')] + type_list_tokens(ts, 0) + seq![delim(')')],
        SpecType::Array(item, n) => seq![delim('[')] + type_tokens(*item) + seq![
            delim(';'),
            SpecTokenType::Number(n as u64),
            delim(']'),
        ],
        SpecType::Function { args, ret } => seq![delim('(')] + type_list_tokens(args, 0) + seq![
            delim(')'),
            arrow(),
        ] + type_tokens(*ret),
        SpecType::Reference(inner) => seq![SpecTokenType::Op(seq!['&'])] + type_tokens(*inner),
        SpecType::Mutable(inner) => seq![SpecTokenType::Name(seq!['m', 'u', 't'])] + type_tokens(
            *inner,
        ),
    }
}

/// The token of a literal. A negative number is printed as more than one
/// token, and is none of the literals meant here.
pub open spec fn value_token(v: SpecValue) -> SpecTokenType {
    match v {
        SpecValue::Number(n) => SpecTokenType::Number(n as u64),
        SpecValue::Bool(b) => if b {
            SpecTokenType::Keyword(Keyword::True)
        } else {
            SpecTokenType::Keyword(Keyword::False)
        },
        SpecValue::Char(c) => SpecTokenType::Literal(SpecLiteral::Char(c)),
        SpecValue::String(s) => SpecTokenType::Literal(SpecLiteral::String(s)),
    }
}

/// The tokens of the expressions of `items` from index `i` on, with the
/// delimiter `sep` between each two.
pub open spec fn list_tokens(items: Seq<SpecExpression>, i: int, sep: char) -> Tokens
    decreases items, items.len() - i,
{
    if !(0 <= i < items.len()) {
        Seq::empty()
    } else if i + 1 == items.len() {
        expr_tokens(items[i])
    } else {
        expr_tokens(items[i]) + seq![delim(sep)] + list_tokens(items, i + 1, sep)
    }
}

/// The tokens of a sequence in its braces.
pub open spec fn block_tokens(items: Seq<SpecExpression>) -> Tokens
    decreases items, items.len() + 1,
{
    seq![delim('{')] + list_tokens(items, 0, ';') + seq![delim('}')]
}

/// The tokens of an expression.
pub open spec fn expr_tokens(e: SpecExpression) -> Tokens
    decreases e, 0int,
{
    match e.expr {
        SpecExpr::Value(v) => seq![value_token(v)],
        SpecExpr::Reference(name) => seq![SpecTokenType::Name(name)],
        SpecExpr::Unary { op, rhs } => match op {
            Operator::TupleIndex(i) => expr_tokens(*rhs) + seq![
                delim('.'),
                SpecTokenType::Number(i as u64),
            ],
            _ => seq![delim('('), SpecTokenType::Op(operator_text(op))] + expr_tokens(*rhs)
                + seq![delim(')')],
        },
        SpecExpr::Binary { lhs, op, rhs } => match op {
            Operator::Assign => expr_tokens(*lhs) + seq![equals()] + expr_tokens(*rhs),
            Operator::ArrayIndex => expr_tokens(*lhs) + seq![delim('[')] + expr_tokens(*rhs)
                + seq![delim(']')],
            _ => seq![delim('(')] + expr_tokens(*lhs) + seq![SpecTokenType::Op(operator_text(op))]
                + expr_tokens(*rhs) + seq![delim(')')],
        },
        SpecExpr::Tuple(items) => if items.len() == 1 {
            seq![delim('(')] + expr_tokens(items[0]) + seq![delim(','), delim(')')]
        } else {
            seq![delim('(')] + list_tokens(items, 0, ',') + seq![delim(')')]
        },
        SpecExpr::Array(items) => seq![delim('[')] + list_tokens(items, 0, ',') + seq![delim(']')],
        SpecExpr::Let { name, value, ty, mutable } => {
            let word = if mutable {
                Keyword::Var
            } else {
                Keyword::Let
            };
            let head = seq![SpecTokenType::Keyword(word), SpecTokenType::Name(name)];
            match ty {
                Some(t) => head + seq![delim(':')] + type_tokens(t) + seq![equals()] + expr_tokens(
                    *value,
                ),
                None => head + seq![equals()] + expr_tokens(*value),
            }
        },
        SpecExpr::If { cond, then_, else_ } => match else_ {
            Some(other) => seq![SpecTokenType::Keyword(Keyword::If)] + expr_tokens(*cond)
                + block_tokens(then_) + seq![SpecTokenType::Keyword(Keyword::Else)] + block_tokens(
                other,
            ),
            None => seq![SpecTokenType::Keyword(Keyword::If)] + expr_tokens(*cond) + block_tokens(
                then_,
            ),
        },
        SpecExpr::Call { func, args } => expr_tokens(*func) + seq![delim('(')] + list_tokens(
            args,
            0,
            ',',
        ) + seq![delim(')')],
        SpecExpr::While { cond, body } => seq![SpecTokenType::Keyword(Keyword::While)]
            + expr_tokens(*cond) + block_tokens(body),
    }
}

/// The tokens of the parameters of `params` from index `i` on, each a
/// name, `:` and a type, with a comma between each two.
pub open spec fn param_tokens(params: Seq<(Seq<char>, SpecType)>, i: int) -> Tokens
    decreases params.len() - i,
{
    if !(0 <= i < params.len()) {
        Seq::empty()
    } else {
        let one = seq![SpecTokenType::Name(params[i].0), delim(':')] + type_tokens(params[i].1);
        if i + 1 == params.len() {
            one
        } else {
            one + seq![delim(',')] + param_tokens(params, i + 1)
        }
    }
}

/// The tokens of a function.
pub open spec fn function_tokens(f: SpecFunction) -> Tokens {
    seq![SpecTokenType::Keyword(Keyword::Func), SpecTokenType::Name(f.name), delim('(')]
        + param_tokens(f.args, 0) + seq![delim(')'), arrow()] + type_tokens(f.ret) + block_tokens(
        f.body,
    )
}

/// The tokens of the functions of `funcs` from index `i` on.
pub open spec fn program_tokens(funcs: Seq<SpecFunction>, i: int) -> Tokens
    decreases funcs.len() - i,
{
    if !(0 <= i < funcs.len()) {
        Seq::empty()
    } else {
        function_tokens(funcs[i]) + program_tokens(funcs, i + 1)
    }
}

} // verus!
