//! The form of program that the printer and the parser agree on.
//!
//! The printer puts parentheses around every prefix and infix operator but
//! assignment, and none around an assignment or a binding. So an assignment
//! reads back as written only where the parser reads a whole expression, a
//! binding only there or as the right operand of an operator, and neither
//! where an index, a call or an operator follows.

use vstd::prelude::*;
use crate::ast::tree::{Operator, SpecExpr, SpecExpression, SpecFunction, SpecValue};
use crate::parser::laws::{all_readable, readable};
use crate::roundtrip::layout::is_name;
use crate::semantics::types::SpecType;

verus! {

/// Whether a type can be written in a source: it is made of `i32`, `bool`
/// and `char`, tuples, arrays and functions.
pub open spec fn writable(t: SpecType) -> bool
    decreases t,
{
    match t {
        SpecType::Signed(_) => true,
        SpecType::Bool => true,
        SpecType::Char => true,
        SpecType::Tuple(ts) => forall|i: int| 0 <= i < ts.len() ==> writable(#[trigger] ts[i]),
        SpecType::Array(item, _) => writable(*item),
        SpecType::Function { args, ret } => (forall|i: int|
            0 <= i < args.len() ==> writable(#[trigger] args[i])) && writable(*ret),
        SpecType::Reference(_) => false,
        SpecType::Mutable(_) => false,
    }
}

/// Where an expression stands, by what the parser reads there.
pub ghost enum Place {
    /// Before an index, a call or an infix operator: a term, with the
    /// indexes and calls that follow it.
    Term,
    /// After a prefix or an infix operator: a term or a binding.
    Operand,
    /// Anywhere else: an expression of any form.
    Whole,
}

/// Whether an infix operator is printed between its operands, in
/// parentheses.
pub open spec fn is_infix(op: Operator) -> bool {
    op.spec_is_arith() || op.spec_is_comparison() || op is And || op is Or
}

/// Whether a literal reads back as itself: a number that is not negative,
/// or any other literal.
pub open spec fn plain_value(v: SpecValue) -> bool {
    match v {
        SpecValue::Number(n) => n >= 0,
        _ => true,
    }
}

/// Whether an expression, where it stands, is in the form that the
/// printer and the parser agree on.
pub open spec fn canon(e: SpecExpression, place: Place) -> bool
    decreases e,
{
    e.ty is None && match e.expr {
        SpecExpr::Value(v) => plain_value(v),
        SpecExpr::Reference(_) => true,
        SpecExpr::Unary { op, rhs } => match op {
            Operator::TupleIndex(_) => canon(*rhs, Place::Term),
            Operator::Not => canon(*rhs, Place::Operand),
            Operator::Sub => canon(*rhs, Place::Operand),
            _ => false,
        },
        SpecExpr::Binary { lhs, op, rhs } => if op is Assign {
            place is Whole && canon(*lhs, Place::Term) && canon(*rhs, Place::Whole)
        } else if op is ArrayIndex {
            canon(*lhs, Place::Term) && canon(*rhs, Place::Whole)
        } else {
            is_infix(op) && canon(*lhs, Place::Term) && canon(*rhs, Place::Operand)
        },
        SpecExpr::Tuple(items) => forall|i: int|
            0 <= i < items.len() ==> canon(#[trigger] items[i], Place::Whole),
        SpecExpr::Array(items) => forall|i: int|
            0 <= i < items.len() ==> canon(#[trigger] items[i], Place::Whole),
        SpecExpr::Let { name, value, ty, mutable } => !(place is Term) && canon(
            *value,
            Place::Whole,
        ) && (ty matches Some(t) ==> writable(t)),
        SpecExpr::If { cond, then_, else_ } => canon(*cond, Place::Whole) && then_.len() > 0
            && (forall|i: int| 0 <= i < then_.len() ==> canon(#[trigger] then_[i], Place::Whole))
            && (else_ matches Some(other) ==> other.len() > 0 && (forall|i: int|
            0 <= i < other.len() ==> canon(#[trigger] other[i], Place::Whole))),
        SpecExpr::Call { func, args } => canon(*func, Place::Term) && (forall|i: int|
            0 <= i < args.len() ==> canon(#[trigger] args[i], Place::Whole)),
        SpecExpr::While { cond, body } => canon(*cond, Place::Whole) && body.len() > 0 && (forall|
            i: int,
        |
            0 <= i < body.len() ==> canon(#[trigger] body[i], Place::Whole)),
    }
}

/// Whether every expression of a list is in form as a whole expression.
pub open spec fn canon_all(items: Seq<SpecExpression>) -> bool {
    forall|i: int| 0 <= i < items.len() ==> canon(#[trigger] items[i], Place::Whole)
}

/// Whether a function is in form: its types can be written, and its body
/// is a sequence of expressions in form.
pub open spec fn canon_function(f: SpecFunction) -> bool {
    &&& forall|i: int| 0 <= i < f.args.len() ==> writable((#[trigger] f.args[i]).1)
    &&& writable(f.ret)
    &&& f.body.len() > 0
    &&& canon_all(f.body)
}

/// Whether a program is in form.
pub open spec fn canon_program(funcs: Seq<SpecFunction>) -> bool {
    forall|i: int| 0 <= i < funcs.len() ==> canon_function(#[trigger] funcs[i])
}

/// An expression in form where less may stand is in form where more may
/// stand.
pub proof fn lemma_canon_widens(e: SpecExpression)
    ensures
        canon(e, Place::Term) ==> canon(e, Place::Operand),
        canon(e, Place::Operand) ==> canon(e, Place::Whole),
{
}


/// Whether the names and the literals of an expression can be written so
/// that they read back: every name is what the scanner reads as a name, and
/// every character in quotes is readable.
pub open spec fn legible(e: SpecExpression) -> bool
    decreases e,
{
    match e.expr {
        SpecExpr::Value(v) => match v {
            SpecValue::Char(c) => readable(c),
            SpecValue::String(s) => all_readable(s),
            _ => true,
        },
        SpecExpr::Reference(name) => is_name(name),
        SpecExpr::Unary { op, rhs } => legible(*rhs),
        SpecExpr::Binary { lhs, op, rhs } => legible(*lhs) && legible(*rhs),
        SpecExpr::Tuple(items) => forall|i: int|
            0 <= i < items.len() ==> legible(#[trigger] items[i]),
        SpecExpr::Array(items) => forall|i: int|
            0 <= i < items.len() ==> legible(#[trigger] items[i]),
        SpecExpr::Let { name, value, ty, mutable } => is_name(name) && legible(*value),
        SpecExpr::If { cond, then_, else_ } => legible(*cond) && (forall|i: int|
            0 <= i < then_.len() ==> legible(#[trigger] then_[i])) && (else_ matches Some(other)
            ==> (forall|i: int| 0 <= i < other.len() ==> legible(#[trigger] other[i]))),
        SpecExpr::Call { func, args } => legible(*func) && (forall|i: int|
            0 <= i < args.len() ==> legible(#[trigger] args[i])),
        SpecExpr::While { cond, body } => legible(*cond) && (forall|i: int|
            0 <= i < body.len() ==> legible(#[trigger] body[i])),
    }
}

/// Whether every expression of a list is legible.
pub open spec fn legible_all(items: Seq<SpecExpression>) -> bool {
    forall|i: int| 0 <= i < items.len() ==> legible(#[trigger] items[i])
}

/// Whether the names and literals of a function can be written so that
/// they read back.
pub open spec fn legible_function(f: SpecFunction) -> bool {
    &&& is_name(f.name)
    &&& forall|i: int| 0 <= i < f.args.len() ==> is_name((#[trigger] f.args[i]).0)
    &&& legible_all(f.body)
}

/// Whether the names and literals of a program can be written so that
/// they read back.
pub open spec fn legible_program(funcs: Seq<SpecFunction>) -> bool {
    forall|i: int| 0 <= i < funcs.len() ==> legible_function(#[trigger] funcs[i])
}

} // verus!
