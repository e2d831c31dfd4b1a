//! The interpreter: runs a program, with or without types, against a
//! runtime environment.

use vstd::prelude::*;
use crate::ast::tree::{
    exprs_model, functions_model, params_model, Expr, Expression, Function, Operator, Program,
    TypeBound,
};
use crate::error::Traced;
use crate::interpreter::env::{Env, SpecEnv};
use crate::interpreter::error::{Error, SpecError};
use crate::interpreter::eval;
use crate::interpreter::value::{literal, types_of, unit_value, values_model, RunValue, Value};
use crate::semantics::types::{Size, Type};

verus! {

/// The limit of a run that is given none: as deep and as long as the
/// machine can count.
pub const NO_LIMIT: u64 = 0xffff_ffff_ffff_ffff;

impl<T: TypeBound> Value<T> {
    /// The value of a prefix operator applied to this value.
    pub fn unary(&self, op: &Operator) -> (r: Result<Value<T>, Error>)
        ensures
            match eval::unary(*op, self@) {
                Ok(v) => r matches Ok(x) && x@ == v,
                Err(e) => r matches Err(x) && x@ == e,
            },
    {
        match (op, self) {
            (Operator::Not, Value::Bool(x)) => Ok(Value::Bool(!*x)),
            (Operator::Sub, Value::Signed(x)) => Ok(Value::Signed(0i64.wrapping_sub(*x))),
            _ => Err(Error::InvalidUnary(*op, self.type_of())),
        }
    }

    /// The value of an infix operator other than assignment applied to
    /// this value and `rhs`.
    pub fn binary(&self, op: &Operator, rhs: &Value<T>) -> (r: Result<Value<T>, Error>)
        ensures
            match eval::binary(*op, self@, rhs@) {
                Ok(v) => r matches Ok(x) && x@ == v,
                Err(e) => r matches Err(x) && x@ == e,
            },
    {
        match (self, rhs) {
            (Value::Signed(x), Value::Signed(y)) => {
                let x = *x;
                let y = *y;
                match op {
                    Operator::Add => Ok(Value::Signed(x.wrapping_add(y))),
                    Operator::Sub => Ok(Value::Signed(x.wrapping_sub(y))),
                    Operator::Mul => Ok(Value::Signed(x.wrapping_mul(y))),
                    Operator::Div => {
                        if y == 0 {
                            Err(Error::DivisionByZero)
                        } else {
                            match x.checked_div(y) {
                                Some(q) => Ok(Value::Signed(q)),
                                None => Ok(Value::Signed(i64::MIN)),
                            }
                        }
                    },
                    Operator::Gt => Ok(Value::Bool(x > y)),
                    Operator::Lt => Ok(Value::Bool(x < y)),
                    Operator::Gte => Ok(Value::Bool(x >= y)),
                    Operator::Lte => Ok(Value::Bool(x <= y)),
                    Operator::Eq => Ok(Value::Bool(x == y)),
                    Operator::Neq => Ok(Value::Bool(x != y)),
                    _ => Err(Error::InvalidBinary(*op, self.type_of(), rhs.type_of())),
                }
            },
            (Value::Bool(x), Value::Bool(y)) => {
                let x = *x;
                let y = *y;
                match op {
                    Operator::And => Ok(Value::Bool(x && y)),
                    Operator::Or => Ok(Value::Bool(x || y)),
                    Operator::Eq => Ok(Value::Bool(x == y)),
                    Operator::Neq => Ok(Value::Bool(x != y)),
                    _ => Err(Error::InvalidBinary(*op, self.type_of(), rhs.type_of())),
                }
            },
            (Value::Char(x), Value::Char(y)) => {
                let x = *x;
                let y = *y;
                match op {
                    Operator::Eq => Ok(Value::Bool(x == y)),
                    Operator::Neq => Ok(Value::Bool(x != y)),
                    _ => Err(Error::InvalidBinary(*op, self.type_of(), rhs.type_of())),
                }
            },
            _ => Err(Error::InvalidBinary(*op, self.type_of(), rhs.type_of())),
        }
    }
}

/// Accepts the type `found` where it is `expected`.
fn expect_type(found: &Type, expected: Type) -> (r: Result<(), Error>)
    ensures
        found@ == expected@ ==> r is Ok,
        found@ != expected@ ==> (r matches Err(e) && e@ == SpecError::UnexpectedType(
            expected@,
            found@,
        )),
{
    if found.equals(&expected) {
        Ok(())
    } else {
        Err(Error::UnexpectedType(expected, found.duplicate()))
    }
}

/// Accepts a value of type `actual` where a binding declares `declared`,
/// the mutable marker set aside.
fn context(declared: &Type, actual: Type) -> (r: Result<(), Error>)
    ensures
        crate::semantics::rules::pop_mut(declared@) == actual@ ==> r is Ok,
        crate::semantics::rules::pop_mut(declared@) != actual@ ==> (r matches Err(e) && e@
            == SpecError::UnexpectedType(declared@, actual@)),
{
    if declared.pop_mut().equals(&actual) {
        Ok(())
    } else {
        Err(Error::UnexpectedType(declared.duplicate(), actual))
    }
}

/// The note for an error in one expression of a sequence.
fn expression_note<T: TypeBound>(expr: &Expression<T>) -> (r: String)
    ensures
        r@ == eval::expression_note(expr@),
{
    let mut note = "On expression: ".to_owned();
    note.append(expr.to_text().as_str());
    note
}

/// The note for an error in the body of the function called `name`.
fn call_note(name: &String) -> (r: String)
    ensures
        r@ == eval::call_note(name@),
{
    let mut note = "On call to function '".to_owned();
    note.append(name.as_str());
    note.append("'");
    note
}

/// Runs the body of a function in the environment of its call.
fn run_func<T: TypeBound>(curr: &Function<T>, env: Env<T>, limit: u64) -> (r: Result<
    Value<T>,
    Traced<Error>,
>)
    ensures
        match eval::eval_seq(curr@.body, 0, env@, limit as nat, RunValue::Signed(0)) {
            Ok((v, _)) => r matches Ok(x) && x@ == v,
            Err(s) => r matches Err(x) && x@ == s.failure,
        },
    decreases limit, curr, 1int,
{
    let mut env = env;
    run_exprs(&curr.body.0, &mut env, limit)
}

/// Runs a sequence: its value is that of its last expression.
pub fn run_exprs<T: TypeBound>(exprs: &Vec<Expression<T>>, env: &mut Env<T>, limit: u64) -> (r: Result<
    Value<T>,
    Traced<Error>,
>)
    ensures
        match eval::eval_seq(exprs_model(*exprs), 0, old(env)@, limit as nat, RunValue::Signed(0)) {
            Ok((v, e)) => r matches Ok(x) && x@ == v && final(env)@ == e,
            Err(s) => r matches Err(x) && x@ == s.failure && final(env)@ == s.env,
        },
    decreases limit, exprs, 0int,
{
    let ghost items = exprs_model(*exprs);
    let ghost goal = eval::eval_seq(items, 0, env@, limit as nat, RunValue::Signed(0));
    let mut val: Value<T> = Value::Signed(0);
    let mut i: usize = 0;
    while i < exprs.len()
        invariant
            0 <= i <= exprs.len(),
            items == exprs_model(*exprs),
            goal == eval::eval_seq(items, 0, old(env)@, limit as nat, RunValue::Signed(0)),
            goal == eval::eval_seq(items, i as int, env@, limit as nat, val@),
        decreases exprs.len() - i,
    {
        assert(items[i as int] == exprs@[i as int]@);
        match run_expr(&exprs[i], env, limit) {
            Ok(v) => {
                val = v;
            },
            Err(e) => {
                return Err(e.note(expression_note(&exprs[i])));
            },
        }
        i += 1;
    }
    Ok(val)
}

/// Runs a list of expressions: their values, in order.
fn run_all<T: TypeBound>(exprs: &Vec<Expression<T>>, env: &mut Env<T>, limit: u64) -> (r: Result<
    Vec<Value<T>>,
    Traced<Error>,
>)
    ensures
        match eval::eval_all(exprs_model(*exprs), 0, old(env)@, limit as nat, Seq::empty()) {
            Ok((v, e)) => r matches Ok(x) && values_model(x) == v && final(env)@ == e,
            Err(s) => r matches Err(x) && x@ == s.failure && final(env)@ == s.env,
        },
    decreases limit, exprs, 0int,
{
    let ghost items = exprs_model(*exprs);
    let ghost goal = eval::eval_all(items, 0, env@, limit as nat, Seq::empty());
    let mut vals: Vec<Value<T>> = Vec::new();
    assert(values_model(vals) =~= Seq::<RunValue>::empty());
    let mut i: usize = 0;
    while i < exprs.len()
        invariant
            0 <= i <= exprs.len(),
            items == exprs_model(*exprs),
            goal == eval::eval_all(items, 0, old(env)@, limit as nat, Seq::empty()),
            goal == eval::eval_all(items, i as int, env@, limit as nat, values_model(vals)),
        decreases exprs.len() - i,
    {
        let v = run_expr(&exprs[i], env, limit)?;
        let ghost before = values_model(vals);
        vals.push(v);
        assert(values_model(vals) =~= before.push(v@));
        i += 1;
    }
    Ok(vals)
}

/// Runs a loop.
fn run_while<T: TypeBound>(expr: &Expression<T>, env: &mut Env<T>, limit: u64) -> (r: Result<
    Value<T>,
    Traced<Error>,
>)
    ensures
        match eval::eval_while(expr@, old(env)@, limit as nat) {
            Ok((v, e)) => r matches Ok(x) && x@ == v && final(env)@ == e,
            Err(s) => r matches Err(x) && x@ == s.failure && final(env)@ == s.env,
        },
    decreases limit, expr, 0int,
{
    let ghost goal = eval::eval_while(expr@, env@, limit as nat);
    let mut left = limit;
    loop
        invariant_except_break
            goal == eval::eval_while(expr@, env@, left as nat),
        invariant
            left <= limit,
            goal == eval::eval_while(expr@, old(env)@, limit as nat),
        ensures
            goal == Ok::<(RunValue, SpecEnv), eval::Stop>((unit_value(), env@)),
        decreases left,
    {
        match &expr.expr {
            Expr::While { cond, body } => {
                let c = run_expr(cond, env, left)?;
                match c {
                    Value::Bool(true) => {
                        run_exprs(&body.0, env, left)?;
                        if left == 0 {
                            return Err(Traced::new(Error::LimitExceeded));
                        }
                        left = left - 1;
                    },
                    Value::Bool(false) => {
                        break ;
                    },
                    other => {
                        return Err(Traced::new(Error::UnexpectedType(Type::Bool, other.type_of())));
                    },
                }
            },
            _ => {
                break ;
            },
        }
    }
    Ok(Value::unit())
}

/// Binds the parameters of a call to its arguments, for good.
fn bind_params<T: TypeBound>(env: &mut Env<T>, params: &Vec<(String, Type)>, args: &Vec<Value<T>>)
    requires
        params.len() == args.len(),
    ensures
        final(env)@ == eval::frame(old(env)@, params_model(*params), values_model(*args), 0),
{
    let ghost names = params_model(*params);
    let ghost vals = values_model(*args);
    let mut i: usize = 0;
    while i < params.len()
        invariant
            0 <= i <= params.len(),
            params.len() == args.len(),
            names == params_model(*params),
            vals == values_model(*args),
            eval::frame(env@, names, vals, i as int) == eval::frame(old(env)@, names, vals, 0),
        decreases params.len() - i,
    {
        assert(names[i as int].0 == params@[i as int].0@);
        assert(vals[i as int] == args@[i as int]@);
        env.insert(params[i].0.as_str(), args[i].duplicate(), false);
        i += 1;
    }
}

/// The type that a value which is called, but cannot be called with these
/// arguments, was expected to have.
fn callable<T: TypeBound>(args: &Vec<Value<T>>) -> (r: Type)
    ensures
        r@ == eval::callable(values_model(*args)),
{
    Type::Function { args: types_of(args), ret: Box::new(Type::unit()) }
}

/// Runs an expression in an environment, which it leaves as the
/// expression leaves it. Where the run fails, the environment is left as
/// the steps before the failing one made it.
pub fn run_expr<T: TypeBound>(expr: &Expression<T>, env: &mut Env<T>, limit: u64) -> (r: Result<
    Value<T>,
    Traced<Error>,
>)
    ensures
        match eval::eval_expr(expr@, old(env)@, limit as nat) {
            Ok((v, e)) => r matches Ok(x) && x@ == v && final(env)@ == e,
            Err(s) => r matches Err(x) && x@ == s.failure && final(env)@ == s.env,
        },
    decreases limit, expr, 1int,
{
    match &expr.expr {
        Expr::Unary { op, rhs } => {
            let val = run_expr(rhs, env, limit)?;
            match val.unary(op) {
                Ok(v) => Ok(v),
                Err(e) => Err(Traced::new(e)),
            }
        },
        Expr::Binary { lhs, op, rhs } => {
            if matches!(op, Operator::Assign) {
                assert(lhs@.expr == lhs.expr.model());
                match &lhs.expr {
                    Expr::Reference(name) => {
                        let val = run_expr(rhs, env, limit)?;
                        match env.update(name, val) {
                            Ok(_) => Ok(Value::unit()),
                            Err(e) => Err(Traced::new(e)),
                        }
                    },
                    _ => Err(Traced::new(Error::InvalidAssignment(lhs.to_text()))),
                }
            } else {
                let l = run_expr(lhs, env, limit)?;
                let r = run_expr(rhs, env, limit)?;
                match l.binary(op, &r) {
                    Ok(v) => Ok(v),
                    Err(e) => Err(Traced::new(e)),
                }
            }
        },
        Expr::Value(val) => Ok(literal(val)),
        Expr::Tuple(items) => Ok(Value::Tuple(run_all(items, env, limit)?)),
        Expr::Array(items) => Ok(Value::Array(run_all(items, env, limit)?)),
        Expr::Reference(x) => match env.get(x) {
            Ok(v) => Ok(v),
            Err(e) => Err(Traced::new(e)),
        },
        Expr::Let { name, value, ty, mutable } => {
            let val = run_expr(value, env, limit)?;
            match ty {
                Some(ty) => {
                    match context(ty, val.type_of()) {
                        Ok(_) => {},
                        Err(e) => {
                            return Err(Traced::new(e));
                        },
                    }
                },
                None => {},
            }
            env.insert(name.as_str(), val, *mutable);
            Ok(Value::unit())
        },
        Expr::If { cond, then_, else_ } => {
            let c = run_expr(cond, env, limit)?;
            match c {
                Value::Bool(true) => run_exprs(&then_.0, env, limit),
                Value::Bool(false) => match else_ {
                    Some(other) => run_exprs(&other.0, env, limit),
                    None => Ok(Value::unit()),
                },
                other => Err(Traced::new(Error::UnexpectedType(Type::Bool, other.type_of()))),
            }
        },
        Expr::Call { func, args } => {
            let f = run_expr(func, env, limit)?;
            let vals = run_all(args, env, limit)?;
            match &f {
                Value::Function(callee) => {
                    assert(params_model(callee.args).len() == callee.args@.len());
                    assert(values_model(vals).len() == vals@.len());
                    if callee.args.len() != vals.len() {
                        return Err(
                            Traced::new(Error::UnexpectedType(callable(&vals), f.type_of())),
                        );
                    }
                    if limit == 0 {
                        return Err(Traced::new(Error::LimitExceeded));
                    }
                    let mut inner = env.call();
                    bind_params(&mut inner, &callee.args, &vals);
                    match run_func(callee, inner, limit - 1) {
                        Ok(v) => Ok(v),
                        Err(e) => Err(e.note(call_note(&callee.name))),
                    }
                },
                _ => Err(Traced::new(Error::UnexpectedType(callable(&vals), f.type_of()))),
            }
        },
        Expr::While { cond, body } => run_while(expr, env, limit),
    }
}

/// The note for a `main` that does not return an integer.
fn main_note() -> (r: String)
    ensures
        r@ == eval::main_note(),
{
    "main() function should return i32".to_owned()
}

/// Whether `name` is `main`.
fn is_main(name: &String) -> (r: bool)
    ensures
        r == (name@ == "main"@),
{
    let main = "main".to_owned();
    *name == main
}

/// Runs a program within a limit on how deep calls nest and how often a
/// loop repeats. `main` returning zero is success; another number is the
/// error `NonZeroExitCode`.
pub fn run_program_within<T: TypeBound>(prgm: Program<T>, limit: u64) -> (r: Result<
    (),
    Traced<Error>,
>)
    ensures
        match eval::run(prgm@, limit as nat) {
            Ok(_) => r is Ok,
            Err(e) => r matches Err(x) && x@ == e,
        },
{
    let funcs = prgm.0;
    let ghost all = functions_model(funcs);
    let mut at: usize = 0;
    while at < funcs.len() && !is_main(&funcs[at].name)
        invariant
            0 <= at <= funcs.len(),
            all == functions_model(funcs),
            eval::find_main(all, at as int) == eval::find_main(all, 0),
        decreases funcs.len() - at,
    {
        assert(all[at as int] == funcs@[at as int]@);
        at += 1;
    }
    if at >= funcs.len() {
        return Err(Traced::new(Error::MainNotFound));
    }
    assert(all[at as int] == funcs@[at as int]@);
    let main = funcs[at].duplicate();
    match expect_type(&main.ret, Type::Signed(Size::ThirtyTwo)) {
        Ok(_) => {},
        Err(e) => {
            return Err(Traced::new(e).note(main_note()));
        },
    }
    assert(params_model(main.args).len() == main.args@.len());
    if main.args.len() != 0 {
        return Err(Traced::new(Error::ArgumentCountMismatch(0, main.args)));
    }
    let value = run_func(&main, Env::from_funcs(funcs), limit)?;
    match value {
        Value::Signed(val) => {
            if val == 0 {
                Ok(())
            } else {
                Err(Traced::new(Error::NonZeroExitCode(val)))
            }
        },
        other => Err(
            Traced::new(Error::UnexpectedType(Type::Signed(Size::ThirtyTwo), other.type_of())),
        ),
    }
}

/// Runs a program. `main` returning zero is success; another number is
/// the error `NonZeroExitCode`.
pub fn run_program<T: TypeBound>(prgm: Program<T>) -> (r: Result<(), Traced<Error>>)
    ensures
        match eval::run(prgm@, NO_LIMIT as nat) {
            Ok(_) => r is Ok,
            Err(e) => r matches Err(x) && x@ == e,
        },
{
    run_program_within(prgm, NO_LIMIT)
}

} // verus!
