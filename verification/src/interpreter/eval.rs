//! What a program means: the value of each form of expression, as
//! functions on the model of the tree.
//!
//! Types are not looked at: only the tags of the values decide. `limit`
//! bounds how deep calls may nest and how often a loop may repeat; a run
//! that needs more ends with `LimitExceeded`.
//!
//! A run that stops gives the error, the notes that it gathered on its way
//! up (the expression of the sequence it stood in, the function that was
//! called), and the environment as the steps before the failing one left
//! it.

use vstd::prelude::*;
use crate::ast::prettyprint::expression_text;
use crate::ast::tree::{Operator, SpecExpr, SpecExpression, SpecFunction};
use crate::error::{bare, noted, SpecTraced};
use crate::interpreter::env::{
    assign, bind, call_env, empty_env, lookup, with_funcs, SpecEnv,
};
use crate::interpreter::error::SpecError;
use crate::interpreter::value::{
    literal_value, type_of_value, types_of_values, unit_value, RunValue,
};
use crate::semantics::rules::pop_mut;
use crate::semantics::types::{spec_integer, spec_unit, SpecType};

verus! {

/// What an operation on values gives: a value, or the error.
pub type Outcome<A> = Result<A, SpecError>;

/// The negative of `x`, wrapping around at the bounds of the type.
pub open spec fn negate(x: i64) -> i64 {
    0i64.wrapping_sub(x)
}

/// `x` divided by `y`, rounded towards zero and wrapping around at the
/// bounds of the type.
pub open spec fn quotient(x: i64, y: i64) -> i64
    recommends
        y != 0,
{
    match x.checked_div(y) {
        Some(q) => q,
        None => i64::MIN,
    }
}

/// The value of a prefix operator applied to `v`: `!` of a truth value, `-`
/// of a number. No other combination has a meaning.
pub open spec fn unary(op: Operator, v: RunValue) -> Outcome<RunValue> {
    match (op, v) {
        (Operator::Not, RunValue::Bool(b)) => Ok(RunValue::Bool(!b)),
        (Operator::Sub, RunValue::Signed(x)) => Ok(RunValue::Signed(negate(x))),
        _ => Err(SpecError::InvalidUnary(op, type_of_value(v))),
    }
}

/// The value of an infix operator applied to two numbers. Arithmetic wraps
/// around at the bounds of the type.
pub open spec fn binary_signed(op: Operator, x: i64, y: i64) -> Outcome<RunValue> {
    match op {
        Operator::Add => Ok(RunValue::Signed(x.wrapping_add(y))),
        Operator::Sub => Ok(RunValue::Signed(x.wrapping_sub(y))),
        Operator::Mul => Ok(RunValue::Signed(x.wrapping_mul(y))),
        Operator::Div => if y == 0 {
            Err(SpecError::DivisionByZero)
        } else {
            Ok(RunValue::Signed(quotient(x, y)))
        },
        Operator::Gt => Ok(RunValue::Bool(x > y)),
        Operator::Lt => Ok(RunValue::Bool(x < y)),
        Operator::Gte => Ok(RunValue::Bool(x >= y)),
        Operator::Lte => Ok(RunValue::Bool(x <= y)),
        Operator::Eq => Ok(RunValue::Bool(x == y)),
        Operator::Neq => Ok(RunValue::Bool(x != y)),
        _ => Err(SpecError::InvalidBinary(op, spec_integer(), spec_integer())),
    }
}

/// The value of an infix operator applied to two truth values.
pub open spec fn binary_bool(op: Operator, x: bool, y: bool) -> Outcome<RunValue> {
    match op {
        Operator::And => Ok(RunValue::Bool(x && y)),
        Operator::Or => Ok(RunValue::Bool(x || y)),
        Operator::Eq => Ok(RunValue::Bool(x == y)),
        Operator::Neq => Ok(RunValue::Bool(x != y)),
        _ => Err(SpecError::InvalidBinary(op, SpecType::Bool, SpecType::Bool)),
    }
}

/// The value of an infix operator applied to two characters.
pub open spec fn binary_char(op: Operator, x: char, y: char) -> Outcome<RunValue> {
    match op {
        Operator::Eq => Ok(RunValue::Bool(x == y)),
        Operator::Neq => Ok(RunValue::Bool(x != y)),
        _ => Err(SpecError::InvalidBinary(op, SpecType::Char, SpecType::Char)),
    }
}

/// The value of an infix operator other than assignment applied to `l`
/// and `r`: two numbers, two truth values or two characters. No other
/// combination has a meaning.
pub open spec fn binary(op: Operator, l: RunValue, r: RunValue) -> Outcome<RunValue> {
    match (l, r) {
        (RunValue::Signed(x), RunValue::Signed(y)) => binary_signed(op, x, y),
        (RunValue::Bool(x), RunValue::Bool(y)) => binary_bool(op, x, y),
        (RunValue::Char(x), RunValue::Char(y)) => binary_char(op, x, y),
        _ => Err(SpecError::InvalidBinary(op, type_of_value(l), type_of_value(r))),
    }
}

/// The environment of a call: the parameters of `params` from index `i`
/// on bound to the arguments at the same indexes, for good.
pub open spec fn frame(env: SpecEnv, params: Seq<(Seq<char>, SpecType)>, args: Seq<RunValue>, i: int) -> SpecEnv
    decreases params.len() - i,
{
    if !(0 <= i < params.len()) {
        env
    } else {
        frame(bind(env, params[i].0, args[i], false), params, args, i + 1)
    }
}

/// The type that a value which is called, but cannot be called with these
/// arguments, was expected to have.
pub open spec fn callable(args: Seq<RunValue>) -> SpecType {
    SpecType::Function { args: types_of_values(args), ret: Box::new(spec_unit()) }
}

/// A run that stopped: the error with its notes, and the environment as
/// the steps before the failing one left it.
pub ghost struct Stop {
    pub failure: SpecTraced<SpecError>,
    pub env: SpecEnv,
}

/// What a step of the run gives: a value and the environment after it,
/// or where and why the run stopped.
pub type Walk<A> = Result<(A, SpecEnv), Stop>;

/// The run stops with the error `e` in the environment `env`.
pub open spec fn stop(e: SpecError, env: SpecEnv) -> Stop {
    Stop { failure: bare(e), env }
}

/// The note that an error in an expression of a sequence gets: the text
/// of the expression.
pub open spec fn expression_note(e: SpecExpression) -> Seq<char> {
    "On expression: "@ + expression_text(e)
}

/// The note that an error in the body of a called function gets: the
/// name of the function.
pub open spec fn call_note(name: Seq<char>) -> Seq<char> {
    "On call to function '"@ + name + "'"@
}

/// The note that a `main` of another return type than an integer gets.
pub open spec fn main_note() -> Seq<char> {
    "main() function should return i32"@
}

/// The value of an expression in an environment, and the environment
/// after it. Where the run stops, the environment is what the steps before
/// the failing one made of it: a failed step changes nothing itself.
pub open spec fn eval_expr(e: SpecExpression, env: SpecEnv, limit: nat) -> Walk<RunValue>
    decreases limit, e, 1int,
{
    match e.expr {
        SpecExpr::Unary { op, rhs } => match eval_expr(*rhs, env, limit) {
            Err(s) => Err(s),
            Ok((v, env)) => match unary(op, v) {
                Err(e) => Err(stop(e, env)),
                Ok(r) => Ok((r, env)),
            },
        },
        SpecExpr::Binary { lhs, op, rhs } => if op is Assign {
            match lhs.expr {
                SpecExpr::Reference(name) => match eval_expr(*rhs, env, limit) {
                    Err(s) => Err(s),
                    Ok((v, env)) => match assign(env, name, v) {
                        Err(e) => Err(stop(e, env)),
                        Ok(env) => Ok((unit_value(), env)),
                    },
                },
                _ => Err(stop(SpecError::InvalidAssignment(expression_text(*lhs)), env)),
            }
        } else {
            match eval_expr(*lhs, env, limit) {
                Err(s) => Err(s),
                Ok((l, env)) => match eval_expr(*rhs, env, limit) {
                    Err(s) => Err(s),
                    Ok((r, env)) => match binary(op, l, r) {
                        Err(e) => Err(stop(e, env)),
                        Ok(v) => Ok((v, env)),
                    },
                },
            }
        },
        SpecExpr::Value(v) => Ok((literal_value(v), env)),
        SpecExpr::Tuple(items) => match eval_all(items, 0, env, limit, Seq::empty()) {
            Err(s) => Err(s),
            Ok((vals, env)) => Ok((RunValue::Tuple(vals), env)),
        },
        SpecExpr::Array(items) => match eval_all(items, 0, env, limit, Seq::empty()) {
            Err(s) => Err(s),
            Ok((vals, env)) => Ok((RunValue::Array(vals), env)),
        },
        SpecExpr::Reference(name) => match lookup(env, name) {
            Err(e) => Err(stop(e, env)),
            Ok(v) => Ok((v, env)),
        },
        SpecExpr::Let { name, value, ty, mutable } => match eval_expr(*value, env, limit) {
            Err(s) => Err(s),
            Ok((v, env)) => match ty {
                Some(t) => if pop_mut(t) == type_of_value(v) {
                    Ok((unit_value(), bind(env, name, v, mutable)))
                } else {
                    Err(stop(SpecError::UnexpectedType(t, type_of_value(v)), env))
                },
                None => Ok((unit_value(), bind(env, name, v, mutable))),
            },
        },
        SpecExpr::If { cond, then_, else_ } => match eval_expr(*cond, env, limit) {
            Err(s) => Err(s),
            Ok((c, env)) => match c {
                RunValue::Bool(true) => eval_seq(then_, 0, env, limit, RunValue::Signed(0)),
                RunValue::Bool(false) => match else_ {
                    Some(other) => eval_seq(other, 0, env, limit, RunValue::Signed(0)),
                    None => Ok((unit_value(), env)),
                },
                _ => Err(stop(SpecError::UnexpectedType(SpecType::Bool, type_of_value(c)), env)),
            },
        },
        SpecExpr::Call { func, args } => match eval_expr(*func, env, limit) {
            Err(s) => Err(s),
            Ok((f, env)) => match eval_all(args, 0, env, limit, Seq::empty()) {
                Err(s) => Err(s),
                Ok((vals, env)) => match f {
                    RunValue::Function(callee) => if callee.args.len() != vals.len() {
                        Err(stop(SpecError::UnexpectedType(callable(vals), type_of_value(f)), env))
                    } else if limit == 0 {
                        Err(stop(SpecError::LimitExceeded, env))
                    } else {
                        match eval_seq(
                            callee.body,
                            0,
                            frame(call_env(env), callee.args, vals, 0),
                            (limit - 1) as nat,
                            RunValue::Signed(0),
                        ) {
                            Err(s) => Err(
                                Stop { failure: noted(s.failure, call_note(callee.name)), env },
                            ),
                            Ok((v, _)) => Ok((v, env)),
                        }
                    },
                    _ => Err(
                        stop(SpecError::UnexpectedType(callable(vals), type_of_value(f)), env),
                    ),
                },
            },
        },
        SpecExpr::While { cond, body } => eval_while(e, env, limit),
    }
}

/// The value of a loop: as long as the condition holds, the body runs; the
/// value is then the unit value.
pub open spec fn eval_while(e: SpecExpression, env: SpecEnv, limit: nat) -> Walk<RunValue>
    decreases limit, e, 0int,
{
    match e.expr {
        SpecExpr::While { cond, body } => match eval_expr(*cond, env, limit) {
            Err(s) => Err(s),
            Ok((c, env)) => match c {
                RunValue::Bool(true) => match eval_seq(body, 0, env, limit, RunValue::Signed(0)) {
                    Err(s) => Err(s),
                    Ok((_, env)) => if limit == 0 {
                        Err(stop(SpecError::LimitExceeded, env))
                    } else {
                        eval_while(e, env, (limit - 1) as nat)
                    },
                },
                RunValue::Bool(false) => Ok((unit_value(), env)),
                _ => Err(stop(SpecError::UnexpectedType(SpecType::Bool, type_of_value(c)), env)),
            },
        },
        _ => Ok((unit_value(), env)),
    }
}

/// The value of a sequence from index `i` on: that of its last
/// expression, or `last` where there is none left. An error in one of its
/// expressions gets the text of that expression as a note.
pub open spec fn eval_seq(
    items: Seq<SpecExpression>,
    i: int,
    env: SpecEnv,
    limit: nat,
    last: RunValue,
) -> Walk<RunValue>
    decreases limit, items, items.len() - i,
{
    if !(0 <= i < items.len()) {
        Ok((last, env))
    } else {
        match eval_expr(items[i], env, limit) {
            Err(s) => Err(
                Stop { failure: noted(s.failure, expression_note(items[i])), env: s.env },
            ),
            Ok((v, env)) => eval_seq(items, i + 1, env, limit, v),
        }
    }
}

/// The values of the expressions of `items` from index `i` on, in order,
/// after those of `acc`.
pub open spec fn eval_all(
    items: Seq<SpecExpression>,
    i: int,
    env: SpecEnv,
    limit: nat,
    acc: Seq<RunValue>,
) -> Walk<Seq<RunValue>>
    decreases limit, items, items.len() - i,
{
    if !(0 <= i < items.len()) {
        Ok((acc, env))
    } else {
        match eval_expr(items[i], env, limit) {
            Err(s) => Err(s),
            Ok((v, env)) => eval_all(items, i + 1, env, limit, acc.push(v)),
        }
    }
}

/// The index of the first function of `funcs` at or after `i` that is
/// named `main`, or the number of functions.
pub open spec fn find_main(funcs: Seq<SpecFunction>, i: int) -> int
    decreases funcs.len() - i,
{
    if 0 <= i < funcs.len() && funcs[i].name != "main"@ {
        find_main(funcs, i + 1)
    } else {
        i
    }
}

/// What the value of `main` means for the run: zero is success, another
/// number is reported as such, anything else is no exit code.
pub open spec fn exit(v: RunValue) -> Outcome<()> {
    match v {
        RunValue::Signed(n) => if n == 0 {
            Ok(())
        } else {
            Err(SpecError::NonZeroExitCode(n))
        },
        _ => Err(SpecError::UnexpectedType(spec_integer(), type_of_value(v))),
    }
}

/// The outcome of a program: `main` must be there, return an integer and
/// take nothing; its body then runs in the environment of all functions.
pub open spec fn run(funcs: Seq<SpecFunction>, limit: nat) -> Result<(), SpecTraced<SpecError>> {
    let at = find_main(funcs, 0);
    if !(0 <= at < funcs.len()) {
        Err(bare(SpecError::MainNotFound))
    } else if funcs[at].ret != spec_integer() {
        Err(noted(bare(SpecError::UnexpectedType(spec_integer(), funcs[at].ret)), main_note()))
    } else if funcs[at].args.len() != 0 {
        Err(bare(SpecError::ArgumentCountMismatch(0, funcs[at].args)))
    } else {
        match eval_seq(
            funcs[at].body,
            0,
            with_funcs(empty_env(), funcs, 0),
            limit,
            RunValue::Signed(0),
        ) {
            Err(s) => Err(s.failure),
            Ok((v, _)) => match exit(v) {
                Err(e) => Err(bare(e)),
                Ok(_) => Ok(()),
            },
        }
    }
}

} // verus!
