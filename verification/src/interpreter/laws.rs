//! What holds of every run.

use vstd::prelude::*;
use crate::ast::tree::{SpecExpr, SpecExpression, SpecFunction};
use crate::interpreter::env::{empty_env, with_funcs, SpecEnv};
use crate::interpreter::error::SpecError;
use crate::ast::prettyprint::expression_text;
use crate::error::{bare, noted, SpecTraced};
use crate::interpreter::eval::{
    call_note, eval_all, eval_expr, eval_seq, eval_while, find_main, frame, run, stop, Stop, Walk,
};
use crate::interpreter::env::call_env;
use crate::interpreter::value::RunValue;
use crate::semantics::types::spec_integer;

verus! {

/// Whether an error can come from evaluating an expression: every error
/// but those that only the start and the end of a run report.
pub open spec fn is_fault(e: SpecError) -> bool {
    !(e is NonZeroExitCode) && !(e is MainNotFound) && !(e is ArgumentCountMismatch)
}

/// Evaluating an expression fails with a fault only.
pub proof fn lemma_expr_faults(e: SpecExpression, env: SpecEnv, limit: nat)
    ensures
        eval_expr(e, env, limit) matches Err(x) ==> is_fault(x.failure.error),
    decreases limit, e, 1int,
{
    match e.expr {
        SpecExpr::Unary { op, rhs } => {
            lemma_expr_faults(*rhs, env, limit);
        },
        SpecExpr::Binary { lhs, op, rhs } => {
            if op is Assign {
                lemma_expr_faults(*rhs, env, limit);
            } else {
                lemma_expr_faults(*lhs, env, limit);
                match eval_expr(*lhs, env, limit) {
                    Ok((l, env1)) => {
                        lemma_expr_faults(*rhs, env1, limit);
                    },
                    Err(_) => {},
                }
            }
        },
        SpecExpr::Value(v) => {},
        SpecExpr::Tuple(items) => {
            lemma_all_faults(items, 0, env, limit, Seq::empty());
        },
        SpecExpr::Array(items) => {
            lemma_all_faults(items, 0, env, limit, Seq::empty());
        },
        SpecExpr::Reference(name) => {},
        SpecExpr::Let { name, value, ty, mutable } => {
            lemma_expr_faults(*value, env, limit);
        },
        SpecExpr::If { cond, then_, else_ } => {
            lemma_expr_faults(*cond, env, limit);
            match eval_expr(*cond, env, limit) {
                Ok((c, env1)) => {
                    lemma_seq_faults(then_, 0, env1, limit, RunValue::Signed(0));
                    match else_ {
                        Some(other) => {
                            lemma_seq_faults(other, 0, env1, limit, RunValue::Signed(0));
                        },
                        None => {},
                    }
                },
                Err(_) => {},
            }
        },
        SpecExpr::Call { func, args } => {
            lemma_expr_faults(*func, env, limit);
            match eval_expr(*func, env, limit) {
                Ok((f, env1)) => {
                    lemma_all_faults(args, 0, env1, limit, Seq::empty());
                    match eval_all(args, 0, env1, limit, Seq::empty()) {
                        Ok((vals, env2)) => {
                            match f {
                                RunValue::Function(callee) => {
                                    if callee.args.len() == vals.len() && limit > 0 {
                                        lemma_seq_faults(
                                            callee.body,
                                            0,
                                            frame(call_env(env2), callee.args, vals, 0),
                                            (limit - 1) as nat,
                                            RunValue::Signed(0),
                                        );
                                    }
                                },
                                _ => {},
                            }
                        },
                        Err(_) => {},
                    }
                },
                Err(_) => {},
            }
        },
        SpecExpr::While { cond, body } => {
            lemma_while_faults(e, env, limit);
        },
    }
}

/// Evaluating a loop fails with a fault only.
pub proof fn lemma_while_faults(e: SpecExpression, env: SpecEnv, limit: nat)
    ensures
        eval_while(e, env, limit) matches Err(x) ==> is_fault(x.failure.error),
    decreases limit, e, 0int,
{
    match e.expr {
        SpecExpr::While { cond, body } => {
            lemma_expr_faults(*cond, env, limit);
            match eval_expr(*cond, env, limit) {
                Ok((c, env1)) => {
                    lemma_seq_faults(body, 0, env1, limit, RunValue::Signed(0));
                    match eval_seq(body, 0, env1, limit, RunValue::Signed(0)) {
                        Ok((_, env2)) => {
                            if limit > 0 {
                                lemma_while_faults(e, env2, (limit - 1) as nat);
                            }
                        },
                        Err(_) => {},
                    }
                },
                Err(_) => {},
            }
        },
        _ => {},
    }
}

/// Evaluating a sequence fails with a fault only.
pub proof fn lemma_seq_faults(
    items: Seq<SpecExpression>,
    i: int,
    env: SpecEnv,
    limit: nat,
    last: RunValue,
)
    ensures
        eval_seq(items, i, env, limit, last) matches Err(x) ==> is_fault(x.failure.error),
    decreases limit, items, items.len() - i,
{
    if 0 <= i < items.len() {
        lemma_expr_faults(items[i], env, limit);
        match eval_expr(items[i], env, limit) {
            Ok((v, env1)) => {
                lemma_seq_faults(items, i + 1, env1, limit, v);
            },
            Err(_) => {},
        }
    }
}

/// Evaluating a list of expressions fails with a fault only.
pub proof fn lemma_all_faults(
    items: Seq<SpecExpression>,
    i: int,
    env: SpecEnv,
    limit: nat,
    acc: Seq<RunValue>,
)
    ensures
        eval_all(items, i, env, limit, acc) matches Err(x) ==> is_fault(x.failure.error),
    decreases limit, items, items.len() - i,
{
    if 0 <= i < items.len() {
        lemma_expr_faults(items[i], env, limit);
        match eval_expr(items[i], env, limit) {
            Ok((v, env1)) => {
                lemma_all_faults(items, i + 1, env1, limit, acc.push(v));
            },
            Err(_) => {},
        }
    }
}

/// Whether a program can be started: it has a function `main`, and the
/// first one returns an integer and takes nothing.
pub open spec fn can_start(funcs: Seq<SpecFunction>) -> bool {
    let at = find_main(funcs, 0);
    0 <= at < funcs.len() && funcs[at].ret == spec_integer() && funcs[at].args.len() == 0
}

/// What the body of `main` evaluates to.
pub open spec fn main_value(funcs: Seq<SpecFunction>, limit: nat) -> Walk<RunValue> {
    eval_seq(
        funcs[find_main(funcs, 0)].body,
        0,
        with_funcs(empty_env(), funcs, 0),
        limit,
        RunValue::Signed(0),
    )
}

/// Whether `main` returns the number `n`.
pub open spec fn main_returns(funcs: Seq<SpecFunction>, limit: nat, n: i64) -> bool {
    main_value(funcs, limit) matches Ok((v, _)) && v == RunValue::Signed(n)
}

/// The exit code of a run is the value of `main`: a run succeeds exactly
/// when `main` returns zero, and reports the non-zero exit code `n`
/// exactly when `main` returns `n`.
pub proof fn law_exit_code(funcs: Seq<SpecFunction>, limit: nat, n: i64)
    ensures
        run(funcs, limit) is Ok <==> (can_start(funcs) && main_returns(funcs, limit, 0)),
        run(funcs, limit) == Err::<(), SpecTraced<SpecError>>(
            bare(SpecError::NonZeroExitCode(n)),
        ) <==> (n != 0 && can_start(funcs) && main_returns(funcs, limit, n)),
{
    if can_start(funcs) {
        lemma_seq_faults(
            funcs[find_main(funcs, 0)].body,
            0,
            with_funcs(empty_env(), funcs, 0),
            limit,
            RunValue::Signed(0),
        );
    }
}

/// Whether a step of a run ended otherwise than at the limit.
pub open spec fn within<A>(r: Walk<A>) -> bool {
    !(r matches Err(s) && s.failure.error is LimitExceeded)
}

/// Whether a run ended otherwise than at the limit.
pub open spec fn ended(r: Result<(), SpecTraced<SpecError>>) -> bool {
    !(r matches Err(t) && t.error is LimitExceeded)
}

/// An expression that evaluates within a limit evaluates to the same
/// within any larger limit.
pub proof fn lemma_expr_limit(e: SpecExpression, env: SpecEnv, limit: nat, more: nat)
    requires
        limit <= more,
        within(eval_expr(e, env, limit)),
    ensures
        eval_expr(e, env, more) == eval_expr(e, env, limit),
    decreases limit, e, 1int,
{
    match e.expr {
        SpecExpr::Unary { op, rhs } => {
            lemma_expr_limit(*rhs, env, limit, more);
        },
        SpecExpr::Binary { lhs, op, rhs } => {
            if op is Assign {
                match lhs.expr {
                    SpecExpr::Reference(name) => {
                        lemma_expr_limit(*rhs, env, limit, more);
                    },
                    _ => {},
                }
            } else {
                lemma_expr_limit(*lhs, env, limit, more);
                match eval_expr(*lhs, env, limit) {
                    Ok((l, env1)) => {
                        lemma_expr_limit(*rhs, env1, limit, more);
                    },
                    Err(_) => {},
                }
            }
        },
        SpecExpr::Value(v) => {},
        SpecExpr::Tuple(items) => {
            lemma_all_limit(items, 0, env, limit, more, Seq::empty());
        },
        SpecExpr::Array(items) => {
            lemma_all_limit(items, 0, env, limit, more, Seq::empty());
        },
        SpecExpr::Reference(name) => {},
        SpecExpr::Let { name, value, ty, mutable } => {
            lemma_expr_limit(*value, env, limit, more);
        },
        SpecExpr::If { cond, then_, else_ } => {
            lemma_expr_limit(*cond, env, limit, more);
            match eval_expr(*cond, env, limit) {
                Ok((c, env1)) => match c {
                    RunValue::Bool(true) => {
                        lemma_seq_limit(then_, 0, env1, limit, more, RunValue::Signed(0));
                    },
                    RunValue::Bool(false) => match else_ {
                        Some(other) => {
                            lemma_seq_limit(other, 0, env1, limit, more, RunValue::Signed(0));
                        },
                        None => {},
                    },
                    _ => {},
                },
                Err(_) => {},
            }
        },
        SpecExpr::Call { func, args } => {
            lemma_expr_limit(*func, env, limit, more);
            match eval_expr(*func, env, limit) {
                Ok((f, env1)) => {
                    lemma_all_limit(args, 0, env1, limit, more, Seq::empty());
                    match eval_all(args, 0, env1, limit, Seq::empty()) {
                        Ok((vals, env2)) => {
                            match f {
                                RunValue::Function(callee) => {
                                    if callee.args.len() == vals.len() && limit > 0 {
                                        lemma_seq_limit(
                                            callee.body,
                                            0,
                                            frame(call_env(env2), callee.args, vals, 0),
                                            (limit - 1) as nat,
                                            (more - 1) as nat,
                                            RunValue::Signed(0),
                                        );
                                    }
                                },
                                _ => {},
                            }
                        },
                        Err(_) => {},
                    }
                },
                Err(_) => {},
            }
        },
        SpecExpr::While { cond, body } => {
            lemma_while_limit(e, env, limit, more);
        },
    }
}

/// A loop that evaluates within a limit evaluates to the same within any
/// larger limit.
pub proof fn lemma_while_limit(e: SpecExpression, env: SpecEnv, limit: nat, more: nat)
    requires
        limit <= more,
        within(eval_while(e, env, limit)),
    ensures
        eval_while(e, env, more) == eval_while(e, env, limit),
    decreases limit, e, 0int,
{
    match e.expr {
        SpecExpr::While { cond, body } => {
            lemma_expr_limit(*cond, env, limit, more);
            match eval_expr(*cond, env, limit) {
                Ok((c, env1)) => match c {
                    RunValue::Bool(true) => {
                        lemma_seq_limit(body, 0, env1, limit, more, RunValue::Signed(0));
                        match eval_seq(body, 0, env1, limit, RunValue::Signed(0)) {
                            Ok((_, env2)) => {
                                if limit > 0 {
                                    lemma_while_limit(
                                        e,
                                        env2,
                                        (limit - 1) as nat,
                                        (more - 1) as nat,
                                    );
                                }
                            },
                            Err(_) => {},
                        }
                    },
                    _ => {},
                },
                Err(_) => {},
            }
        },
        _ => {},
    }
}

/// A sequence that evaluates within a limit evaluates to the same within
/// any larger limit.
pub proof fn lemma_seq_limit(
    items: Seq<SpecExpression>,
    i: int,
    env: SpecEnv,
    limit: nat,
    more: nat,
    last: RunValue,
)
    requires
        limit <= more,
        within(eval_seq(items, i, env, limit, last)),
    ensures
        eval_seq(items, i, env, more, last) == eval_seq(items, i, env, limit, last),
    decreases limit, items, items.len() - i,
{
    if 0 <= i < items.len() {
        lemma_expr_limit(items[i], env, limit, more);
        match eval_expr(items[i], env, limit) {
            Ok((v, env1)) => {
                lemma_seq_limit(items, i + 1, env1, limit, more, v);
            },
            Err(_) => {},
        }
    }
}

/// A list of expressions that evaluates within a limit evaluates to the
/// same within any larger limit.
pub proof fn lemma_all_limit(
    items: Seq<SpecExpression>,
    i: int,
    env: SpecEnv,
    limit: nat,
    more: nat,
    acc: Seq<RunValue>,
)
    requires
        limit <= more,
        within(eval_all(items, i, env, limit, acc)),
    ensures
        eval_all(items, i, env, more, acc) == eval_all(items, i, env, limit, acc),
    decreases limit, items, items.len() - i,
{
    if 0 <= i < items.len() {
        lemma_expr_limit(items[i], env, limit, more);
        match eval_expr(items[i], env, limit) {
            Ok((v, env1)) => {
                lemma_all_limit(items, i + 1, env1, limit, more, acc.push(v));
            },
            Err(_) => {},
        }
    }
}

/// The limit only cuts a run short: a run that ends within a limit,
/// whatever its outcome, ends the same within any larger limit.
pub proof fn law_limit(funcs: Seq<SpecFunction>, limit: nat, more: nat)
    requires
        limit <= more,
        ended(run(funcs, limit)),
    ensures
        run(funcs, more) == run(funcs, limit),
{
    if can_start(funcs) {
        let body = funcs[find_main(funcs, 0)].body;
        let env = with_funcs(empty_env(), funcs, 0);
        lemma_seq_faults(body, 0, env, limit, RunValue::Signed(0));
        lemma_seq_limit(body, 0, env, limit, more, RunValue::Signed(0));
    }
}

/// An assignment to what is no variable fails as an invalid assignment,
/// before anything is evaluated: the environment is as it was.
pub proof fn law_invalid_assignment(e: SpecExpression, env: SpecEnv, limit: nat)
    requires
        e.expr matches SpecExpr::Binary { lhs, op, .. } && op is Assign && !(lhs.expr
            is Reference),
    ensures
        eval_expr(e, env, limit) == Err::<(RunValue, SpecEnv), Stop>(
            stop(SpecError::InvalidAssignment(expression_text(*e.expr->Binary_lhs)), env),
        ),
{
}

/// A name that is bound to nothing fails as an undefined variable, and
/// the environment is as it was.
pub proof fn law_undefined_name(e: SpecExpression, env: SpecEnv, limit: nat)
    requires
        e.expr matches SpecExpr::Reference(name) && !env.vars.contains_key(name)
            && !env.funcs.contains_key(name),
    ensures
        eval_expr(e, env, limit) == Err::<(RunValue, SpecEnv), Stop>(
            stop(SpecError::UndefinedVariable(e.expr->Reference_0), env),
        ),
{
}

/// A call that fails in the body of the function it calls leaves the
/// caller's environment as the callee and the arguments left it, whatever
/// the body did to its own: the body runs in an environment of its own,
/// which holds the functions and the parameters and none of the caller's
/// variables. The error is that of the body, with the name of the function
/// noted.
pub proof fn law_failed_call(e: SpecExpression, env: SpecEnv, limit: nat)
    requires
        e.expr is Call,
        limit > 0,
    ensures
        match eval_expr(*e.expr->Call_func, env, limit) {
            Ok((RunValue::Function(callee), env1)) => match eval_all(
                e.expr->Call_args,
                0,
                env1,
                limit,
                Seq::empty(),
            ) {
                Ok((vals, env2)) => callee.args.len() == vals.len() ==> match eval_seq(
                    callee.body,
                    0,
                    frame(call_env(env2), callee.args, vals, 0),
                    (limit - 1) as nat,
                    RunValue::Signed(0),
                ) {
                    Ok((v, _)) => eval_expr(e, env, limit) == Ok::<(RunValue, SpecEnv), Stop>(
                        (v, env2),
                    ),
                    Err(s) => eval_expr(e, env, limit) == Err::<(RunValue, SpecEnv), Stop>(
                        (Stop { failure: noted(s.failure, call_note(callee.name)), env: env2 }),
                    ),
                },
                Err(s) => eval_expr(e, env, limit) == Err::<(RunValue, SpecEnv), Stop>(s),
            },
            Ok(_) => true,
            Err(s) => eval_expr(e, env, limit) == Err::<(RunValue, SpecEnv), Stop>(s),
        },
{
}

} // verus!
