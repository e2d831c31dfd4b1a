//! The type checker: from a tree without types to the same tree with a type
//! at every expression, or the first type error.

use vstd::prelude::*;
use std::rc::Rc;
use crate::ast::tree::{
    duplicate_params, exprs_model, functions_model, opt_type_model, params_model, Expr,
    Expression, Function, Operator, Program, Sequence, SpecExpression, SpecFunction, Value,
};
use crate::error::{bare, noted, Traced};
use crate::semantics::error::Error;
use crate::semantics::rules;
use crate::semantics::types::{types_model, SpecType, Type};
use crate::table::Table;

verus! {

/// The scope of the checker: the type of each name that is bound. The
/// functions of the program are shared by every function that is checked;
/// over them stand the parameters and the variables of the one at hand.
pub struct TypeEnv {
    globals: Rc<Table<Type>>,
    locals: Table<Type>,
}

impl View for TypeEnv {
    type V = Map<Seq<char>, SpecType>;

    closed spec fn view(&self) -> Map<Seq<char>, SpecType> {
        self.globals@.union_prefer_right(self.locals@)
    }
}

impl TypeEnv {
    /// The scope in which nothing is bound.
    pub fn new() -> (r: TypeEnv)
        ensures
            r@ == Map::<Seq<char>, SpecType>::empty(),
    {
        let r = TypeEnv { globals: Rc::new(Table::new()), locals: Table::new() };
        assert(r@ =~= Map::<Seq<char>, SpecType>::empty());
        r
    }

    /// The scope of a function before its parameters are bound: the
    /// functions of the program.
    fn over(globals: &Rc<Table<Type>>) -> (r: TypeEnv)
        ensures
            r@ == globals@,
    {
        let r = TypeEnv { globals: Rc::clone(globals), locals: Table::new() };
        assert(r@ =~= globals@);
        r
    }

    /// Whether `name` is bound.
    pub fn contains_key(&self, name: &String) -> (r: bool)
        ensures
            r == self@.contains_key(name@),
    {
        self.locals.contains_key(name) || self.globals.contains_key(name)
    }

    /// The type that `name` is bound to, if it is bound.
    pub fn get(&self, name: &String) -> (r: Option<&Type>)
        ensures
            match r {
                Some(t) => self@.contains_key(name@) && self@[name@] == t@,
                None => !self@.contains_key(name@),
            },
    {
        match self.locals.get(name) {
            Some(t) => Some(t),
            None => self.globals.get(name),
        }
    }

    /// Binds `name` to `ty`, in place of what it was bound to.
    pub fn insert(&mut self, name: String, ty: Type)
        ensures
            final(self)@ == old(self)@.insert(name@, ty@),
    {
        self.locals.insert(name, ty);
        assert(self@ =~= old(self)@.insert(name@, ty@));
    }
}

impl Type {
    /// The type without the mutable marker at its top, if it has one.
    pub fn pop_mut(&self) -> (r: &Type)
        ensures
            r@ == rules::pop_mut(self@),
    {
        match self {
            Type::Mutable(ty) => ty,
            _ => self,
        }
    }

    /// The type that a reference type refers to; any other type is itself.
    pub fn pop_ref(&self) -> (r: &Type)
        ensures
            r@ == rules::pop_ref(self@),
    {
        match self {
            Type::Reference(ty) => ty,
            _ => self,
        }
    }

    /// Accepts this type where it is the same as `wanted`, once a mutable
    /// marker at the top of either is set aside.
    pub fn expect(&self, wanted: &Type) -> (r: Result<(), Error>)
        ensures
            match rules::expect(self@, wanted@) {
                Ok(_) => r is Ok,
                Err(e) => r matches Err(x) && x@ == e,
            },
    {
        if self.pop_mut().equals(wanted.pop_mut()) {
            Ok(())
        } else {
            Err(Error::UnexpectedType(self.duplicate(), wanted.duplicate()))
        }
    }

    /// The type of a part of a value of this type, where the part taken
    /// alone has type `part`.
    pub fn map_mut(&self, part: Type) -> (r: Type)
        ensures
            r@ == rules::rewrap(self@, part@),
    {
        match self {
            Type::Mutable(_) => match part {
                Type::Array(_, _) => part,
                Type::Tuple(_) => part,
                Type::Mutable(_) => part,
                _ => Type::Mutable(Box::new(part)),
            },
            _ => part,
        }
    }

    /// The type of item `i` of a value of this type.
    fn tuple_item(&self, i: usize) -> (r: Result<Type, Error>)
        ensures
            match rules::tuple_item(self@, i) {
                Ok(t) => r matches Ok(x) && x@ == t,
                Err(e) => r matches Err(x) && x@ == e,
            },
    {
        match self {
            Type::Tuple(items) => {
                assert(self@ == SpecType::Tuple(types_model(*items)));
                assert(types_model(*items).len() == items@.len());
                if i < items.len() {
                    assert(types_model(*items)[i as int] == items@[i as int]@);
                    Ok(items[i].duplicate())
                } else {
                    Err(Error::InvalidTupleIndex(self.duplicate()))
                }
            },
            _ => Err(Error::InvalidTupleIndex(self.duplicate())),
        }
    }
}

impl<T: crate::ast::tree::TypeBound> Function<T> {
    /// The type of the function: its parameters' types and its return
    /// type.
    pub fn get_type(&self) -> (r: Type)
        ensures
            r@ == rules::signature(self@),
    {
        let mut args: Vec<Type> = Vec::new();
        let mut i: usize = 0;
        while i < self.args.len()
            invariant
                0 <= i <= self.args.len(),
                args.len() == i,
                forall|j: int| 0 <= j < i ==> args@[j]@ == self.args@[j].1@,
            decreases self.args.len() - i,
        {
            args.push(self.args[i].1.duplicate());
            i += 1;
        }
        let r = Type::Function { args, ret: Box::new(self.ret.duplicate()) };
        assert(r@->args =~= rules::signature(self@)->args) by {
            let a = r@->args;
            let b = rules::signature(self@)->args;
            assert(a == types_model(args));
            assert(a.len() == b.len());
            assert forall|j: int| 0 <= j < a.len() implies a[j] == b[j] by {
                assert(a[j] == args@[j]@);
                assert(params_model(self.args)[j].1 == self.args@[j].1@);
            }
        }
        r
    }

    /// Accepts the function where its type is `ty`; the error notes the
    /// name of the function.
    pub fn expect(&self, ty: &Type) -> (r: Result<(), Traced<Error>>)
        ensures
            match rules::expect(rules::signature(self@), ty@) {
                Ok(_) => r is Ok,
                Err(e) => r matches Err(x) && x@ == noted(bare(e), rules::function_note(self@.name)),
            },
    {
        match self.get_type().expect(ty) {
            Ok(_) => Ok(()),
            Err(e) => Err(Traced::new(e).note(function_note(&self.name))),
        }
    }
}

/// Accepts `found` where it is the same type as `wanted`; the error gets
/// the note `note`.
fn expect_as(found: &Type, wanted: &Type, note: &str) -> (r: Result<(), Traced<Error>>)
    ensures
        match rules::expect_as(found@, wanted@, note@) {
            Ok(_) => r is Ok,
            Err(e) => r matches Err(x) && x@ == e,
        },
{
    match found.expect(wanted) {
        Ok(_) => Ok(()),
        Err(e) => Err(Traced::new(e).note(note.to_owned())),
    }
}

/// The note on a prefix or postfix operator that does not fit `rhs`.
fn unary_note(op: Operator, rhs: &Expression<Type>) -> (r: String)
    ensures
        r@ == rules::unary_note(op, rhs@),
{
    let mut note = "On unary expression: (".to_owned();
    note.append(op.to_text().as_str());
    note.append(" ");
    note.append(rhs.to_text().as_str());
    note.append(")");
    note
}

/// The note on an infix operator that does not fit `lhs` and `rhs`.
fn binary_note(lhs: &Expression<Type>, op: Operator, rhs: &Expression<Type>) -> (r: String)
    ensures
        r@ == rules::binary_note(lhs@, op, rhs@),
{
    let mut note = "On binary expression: (".to_owned();
    note.append(lhs.to_text().as_str());
    note.append(" ");
    note.append(op.to_text().as_str());
    note.append(" ");
    note.append(rhs.to_text().as_str());
    note.append(")");
    note
}

/// The note on a binding of `name` whose value has another type than it
/// declares.
fn binding_note(name: &String) -> (r: String)
    ensures
        r@ == rules::binding_note(name@),
{
    let mut note = "Type mismatch for variable '".to_owned();
    note.append(name.as_str());
    note.append("'");
    note
}

/// The note on a body of another type than the function `name` returns.
fn return_note(name: &String) -> (r: String)
    ensures
        r@ == rules::return_note(name@),
{
    let mut note = "Return type mismatch for function ".to_owned();
    note.append(name.as_str());
    note
}

/// The note on any error in the function `name`.
fn function_note(name: &String) -> (r: String)
    ensures
        r@ == rules::function_note(name@),
{
    let mut note = "In function '".to_owned();
    note.append(name.as_str());
    note.append("'");
    note
}

/// The type of a prefix or postfix operator applied to `rhs`.
fn infer_unary(op: Operator, rhs: &Expression<Type>) -> (r: Result<Type, Traced<Error>>)
    ensures
        match rules::unary_type(op, rules::type_of(rhs@)) {
            Ok(t) => r matches Ok(x) && x@ == t,
            Err(e) => r matches Err(x) && x@ == e,
        },
{
    let ty = &rhs.ty;
    match op {
        Operator::Not => {
            expect_as(ty, &Type::Bool, "Unary negation on non-boolean")?;
            Ok(Type::Bool)
        },
        Operator::Sub => {
            expect_as(ty, &Type::integer(), "Unary negation on non-integer")?;
            Ok(Type::integer())
        },
        Operator::TupleIndex(i) => match ty.pop_mut().tuple_item(i) {
            Ok(item) => Ok(ty.map_mut(item)),
            Err(e) => Err(Traced::new(e)),
        },
        Operator::Ref => Ok(ty.map_mut(Type::Reference(Box::new(ty.pop_mut().duplicate())))),
        Operator::Mul => match ty.pop_mut() {
            Type::Reference(inner) => Ok(ty.map_mut(inner.duplicate())),
            other => Err(Traced::new(Error::InvalidDereference(other.duplicate()))),
        },
        _ => Err(Traced::new(Error::InvalidUnary(op))),
    }
}

/// The type of an infix operator applied to `lhs` and `rhs`. An assignment
/// strips the mutable marker from the type that its target carries; an
/// operator that is refused leaves `lhs` as it was.
fn infer_binary(op: Operator, lhs: &mut Expression<Type>, rhs: &Expression<Type>) -> (r: Result<
    Type,
    Traced<Error>,
>)
    ensures
        match rules::binary_type(op, rules::type_of(old(lhs)@), rules::type_of(rhs@)) {
            Ok((t, target)) => r matches Ok(x) && x@ == t && final(lhs)@ == rules::typed(
                old(lhs)@.expr,
                target,
            ),
            Err(e) => r matches Err(x) && x@ == e && final(lhs)@ == old(lhs)@,
        },
{
    let rhs_ty = &rhs.ty;
    match op {
        Operator::Assign => {
            let target = match &lhs.ty {
                Type::Mutable(ty) => {
                    expect_as(rhs_ty, ty, "Invalid operand types for assignment")?;
                    ty.duplicate()
                },
                _ => {
                    return Err(Traced::new(Error::NotMutable(lhs.ty.duplicate())));
                },
            };
            lhs.ty = target;
            Ok(Type::unit())
        },
        Operator::ArrayIndex => match lhs.ty.pop_mut() {
            Type::Array(item, _) => {
                expect_as(rhs_ty, &Type::integer(), "Invalid index type for array")?;
                Ok(lhs.ty.map_mut(item.duplicate()))
            },
            other => Err(Traced::new(Error::InvalidArrayIndex(other.duplicate()))),
        },
        _ => {
            if op.is_arith() {
                expect_as(&lhs.ty, rhs_ty, "Invalid operand types for arithmetic operator")?;
                expect_as(
                    &lhs.ty,
                    &Type::integer(),
                    "Invalid operand type for arithmetic operator",
                )?;
                Ok(Type::integer())
            } else if op.is_comparison() {
                expect_as(&lhs.ty, rhs_ty, "Invalid operand type for comparison operator")?;
                Ok(Type::Bool)
            } else if op.is_logical() {
                expect_as(&lhs.ty, &Type::Bool, "Invalid operand type for logical operator")?;
                expect_as(rhs_ty, &Type::Bool, "Invalid operand type for logical operator")?;
                Ok(Type::Bool)
            } else {
                Err(Traced::new(Error::InvalidBinary(op)))
            }
        },
    }
}

/// The type of a literal.
fn value_type(v: &Value) -> (r: Type)
    ensures
        r@ == rules::value_type(v@),
{
    match v {
        Value::Number(_) => Type::integer(),
        Value::Bool(_) => Type::Bool,
        Value::Char(_) => Type::Char,
        Value::String(s) => {
            let n = s.as_str().unicode_len();
            assert(n == s@.len() as usize);
            let item = Type::Char;
            assert(item@ == SpecType::Char);
            Type::Array(Box::new(item), n)
        },
    }
}

/// The types that checked expressions carry, in order.
fn types_of(items: &Vec<Expression<Type>>) -> (r: Vec<Type>)
    ensures
        types_model(r) == rules::types_of(exprs_model(*items)),
{
    let mut out: Vec<Type> = Vec::new();
    let mut i: usize = 0;
    while i < items.len()
        invariant
            0 <= i <= items.len(),
            out.len() == i,
            forall|j: int| 0 <= j < i ==> out@[j]@ == items@[j].ty@,
        decreases items.len() - i,
    {
        out.push(items[i].ty.duplicate());
        i += 1;
    }
    assert(types_model(out) =~= rules::types_of(exprs_model(*items)));
    out
}

/// The types of the items of a tuple with the checked items `items`.
fn item_types(items: &Vec<Expression<Type>>) -> (r: Vec<Type>)
    ensures
        types_model(r) == rules::item_types(exprs_model(*items)),
{
    let mut out: Vec<Type> = Vec::new();
    let mut i: usize = 0;
    while i < items.len()
        invariant
            0 <= i <= items.len(),
            out.len() == i,
            forall|j: int| 0 <= j < i ==> out@[j]@ == rules::pop_mut(items@[j].ty@),
        decreases items.len() - i,
    {
        out.push(items[i].ty.pop_mut().duplicate());
        i += 1;
    }
    assert(types_model(out) =~= rules::item_types(exprs_model(*items)));
    out
}

/// The type of a checked sequence: that of its last expression.
fn last_type(items: &Vec<Expression<Type>>) -> (r: Type)
    ensures
        r@ == rules::last_type(exprs_model(*items)),
{
    if items.len() == 0 {
        Type::unit()
    } else {
        items[items.len() - 1].ty.duplicate()
    }
}

/// The type of a call of a value of type `callee` with the checked
/// arguments `args`.
fn call_type(callee: &Type, args: &Vec<Expression<Type>>) -> (r: Result<Type, Traced<Error>>)
    ensures
        match rules::call_type(callee@, exprs_model(*args)) {
            Ok(t) => r matches Ok(x) && x@ == t,
            Err(e) => r matches Err(x) && x@ == e,
        },
{
    match callee {
        Type::Function { args: params, ret } => {
            assert(callee@ == SpecType::Function {
                args: types_model(*params),
                ret: Box::new(ret@),
            });
            assert(types_model(*params).len() == params@.len());
            assert(exprs_model(*args).len() == args@.len());
            if params.len() != args.len() {
                let found = Type::Function { args: types_of(args), ret: Box::new(ret.duplicate()) };
                return Err(Traced::new(Error::UnexpectedType(found, callee.duplicate())));
            }
            let ghost items = exprs_model(*args);
            let ghost wanted = types_model(*params);
            let mut i: usize = 0;
            while i < args.len()
                invariant
                    0 <= i <= args.len(),
                    params.len() == args.len(),
                    items == exprs_model(*args),
                    wanted == types_model(*params),
                    rules::expect_each(items, wanted, i as int) == rules::expect_each(
                        items,
                        wanted,
                        0,
                    ),
                    callee@ == (SpecType::Function {
                        args: types_model(*params),
                        ret: Box::new(ret@),
                    }),
                decreases args.len() - i,
            {
                assert(wanted[i as int] == params@[i as int]@);
                assert(rules::type_of(items[i as int]) == args@[i as int].ty@);
                match args[i].ty.expect(&params[i]) {
                    Ok(_) => {},
                    Err(e) => {
                        return Err(Traced::new(e).note("Argument type mismatch".to_owned()));
                    },
                }
                i += 1;
            }
            Ok(ret.duplicate())
        },
        _ => Err(Traced::new(Error::ExpectedFunction(callee.duplicate()))),
    }
}

/// The type of an array literal with the checked items `items`.
fn array_type(items: &Vec<Expression<Type>>) -> (r: Result<Type, Traced<Error>>)
    ensures
        match rules::array_type(exprs_model(*items)) {
            Ok(t) => r matches Ok(x) && x@ == t,
            Err(e) => r matches Err(x) && x@ == e,
        },
{
    if items.len() == 0 {
        return Err(Traced::new(Error::EmptyArray));
    }
    let first = items[0].ty.pop_mut().duplicate();
    let ghost models = exprs_model(*items);
    let ghost wanted = Seq::new(models.len(), |i: int| rules::pop_mut(rules::type_of(models[0])));
    let mut i: usize = 0;
    while i < items.len()
        invariant
            0 <= i <= items.len(),
            items.len() > 0,
            models == exprs_model(*items),
            first@ == rules::pop_mut(rules::type_of(models[0])),
            wanted == Seq::new(models.len(), |i: int| rules::pop_mut(rules::type_of(models[0]))),
            rules::expect_each(models, wanted, i as int) == rules::expect_each(models, wanted, 0),
        decreases items.len() - i,
    {
        match items[i].ty.expect(&first) {
            Ok(_) => {},
            Err(e) => {
                return Err(Traced::new(e).note("Array element type mismatch".to_owned()));
            },
        }
        i += 1;
    }
    Ok(Type::Array(Box::new(first), items.len()))
}

/// The type that a binding gives its name.
fn binding_type(declared: &Option<Type>, value: &Type, mutable: bool) -> (r: Result<Type, Error>)
    ensures
        match rules::binding_type(opt_type_model(*declared), value@, mutable) {
            Ok(t) => r matches Ok(x) && x@ == t,
            Err(e) => r matches Err(x) && x@ == e,
        },
{
    let plain = value.pop_mut();
    let chosen = match declared {
        Some(d) => {
            d.expect(plain)?;
            d.duplicate()
        },
        None => plain.duplicate(),
    };
    if mutable {
        Ok(Type::Mutable(Box::new(chosen)))
    } else {
        Ok(chosen)
    }
}

/// Checks an expression in a scope, which it leaves as the expression
/// leaves it. Where the check fails, the scope is left as the parts before
/// the failing one made it: a form that is refused binds nothing.
pub fn infer_expr(expr: &Expression<()>, env: &mut TypeEnv) -> (r: Result<
    Expression<Type>,
    Traced<Error>,
>)
    ensures
        match rules::check_expr(expr@, old(env)@) {
            Ok((e, scope)) => r matches Ok(x) && x@ == e && final(env)@ == scope,
            Err(f) => r matches Err(x) && x@ == f.failure && final(env)@ == f.scope,
        },
    decreases expr, 0int,
{
    match &expr.expr {
        Expr::Unary { op, rhs } => {
            let rhs = infer_expr(rhs, env)?;
            let ty = match infer_unary(*op, &rhs) {
                Ok(ty) => ty,
                Err(e) => {
                    return Err(e.note(unary_note(*op, &rhs)));
                },
            };
            Ok(Expression { expr: Expr::Unary { op: *op, rhs: Box::new(rhs) }, ty })
        },
        Expr::Binary { lhs, op, rhs } => {
            let mut lhs = infer_expr(lhs, env)?;
            let rhs = infer_expr(rhs, env)?;
            let ty = match infer_binary(*op, &mut lhs, &rhs) {
                Ok(ty) => ty,
                Err(e) => {
                    return Err(e.note(binary_note(&lhs, *op, &rhs)));
                },
            };
            Ok(
                Expression {
                    expr: Expr::Binary { lhs: Box::new(lhs), op: *op, rhs: Box::new(rhs) },
                    ty,
                },
            )
        },
        Expr::Value(v) => Ok(Expression { expr: Expr::Value(v.clone()), ty: value_type(v) }),
        Expr::Tuple(items) => {
            let items = infer_exprs(items, env)?;
            let ty = Type::Tuple(item_types(&items));
            Ok(Expression { expr: Expr::Tuple(items), ty })
        },
        Expr::Array(items) => {
            let items = infer_exprs(items, env)?;
            let ty = array_type(&items)?;
            Ok(Expression { expr: Expr::Array(items), ty })
        },
        Expr::Reference(name) => {
            let ty = match env.get(name) {
                Some(ty) => ty.duplicate(),
                None => {
                    return Err(Traced::new(Error::VariableNotFound(name.clone())));
                },
            };
            Ok(Expression { expr: Expr::Reference(name.clone()), ty })
        },
        Expr::Let { name, value, ty, mutable } => {
            let value = infer_expr(value, env)?;
            let bound = match binding_type(ty, &value.ty, *mutable) {
                Ok(bound) => bound,
                Err(e) => {
                    return Err(Traced::new(e).note(binding_note(name)));
                },
            };
            if env.contains_key(name) {
                return Err(Traced::new(Error::RedeclarationVariable(name.clone())));
            }
            env.insert(name.clone(), bound.duplicate());
            Ok(
                Expression {
                    expr: Expr::Let {
                        name: name.clone(),
                        value: Box::new(value),
                        ty: Some(bound),
                        mutable: *mutable,
                    },
                    ty: Type::unit(),
                },
            )
        },
        Expr::If { cond, then_, else_ } => {
            let cond = infer_expr(cond, env)?;
            let then_ = infer_seq(then_, env)?;
            let else_ = match else_ {
                Some(seq) => Some(infer_seq(seq, env)?),
                None => None,
            };
            expect_as(&cond.ty, &Type::Bool, "If condition must be a boolean")?;
            let ty = match &else_ {
                Some(other) => {
                    let ty = last_type(&then_.0);
                    expect_as(
                        &ty,
                        &last_type(&other.0),
                        "If-else branches must have the same type",
                    )?;
                    ty
                },
                None => Type::unit(),
            };
            Ok(Expression { expr: Expr::If { cond: Box::new(cond), then_, else_ }, ty })
        },
        Expr::Call { func, args } => {
            let func = infer_expr(func, env)?;
            let args = infer_exprs(args, env)?;
            let ty = call_type(&func.ty, &args)?;
            Ok(Expression { expr: Expr::Call { func: Box::new(func), args }, ty })
        },
        Expr::While { cond, body } => {
            let cond = infer_expr(cond, env)?;
            let body = infer_seq(body, env)?;
            expect_as(&cond.ty, &Type::Bool, "While condition must be a boolean")?;
            Ok(Expression { expr: Expr::While { cond: Box::new(cond), body }, ty: Type::unit() })
        },
    }
}

/// Checks a sequence, each expression in the scope that the one before it
/// left.
fn infer_seq(seq: &Sequence<()>, env: &mut TypeEnv) -> (r: Result<Sequence<Type>, Traced<Error>>)
    ensures
        match rules::check_all(seq@, 0, old(env)@, Seq::empty()) {
            Ok((e, scope)) => r matches Ok(x) && x@ == e && final(env)@ == scope,
            Err(f) => r matches Err(x) && x@ == f.failure && final(env)@ == f.scope,
        },
    decreases seq, 1int,
{
    let new_exprs = infer_exprs(&seq.0, env)?;
    Ok(Sequence(new_exprs))
}

/// Checks a list of expressions, each in the scope that the one before it
/// left.
pub fn infer_exprs(exprs: &Vec<Expression<()>>, env: &mut TypeEnv) -> (r: Result<
    Vec<Expression<Type>>,
    Traced<Error>,
>)
    ensures
        match rules::check_all(exprs_model(*exprs), 0, old(env)@, Seq::empty()) {
            Ok((e, scope)) => r matches Ok(x) && exprs_model(x) == e && final(env)@ == scope,
            Err(f) => r matches Err(x) && x@ == f.failure && final(env)@ == f.scope,
        },
    decreases exprs, 0int,
{
    let ghost items = exprs_model(*exprs);
    let ghost goal = rules::check_all(items, 0, env@, Seq::empty());
    let mut out: Vec<Expression<Type>> = Vec::new();
    assert(exprs_model(out) =~= Seq::<SpecExpression>::empty());
    let mut i: usize = 0;
    while i < exprs.len()
        invariant
            0 <= i <= exprs.len(),
            items == exprs_model(*exprs),
            goal == rules::check_all(items, 0, old(env)@, Seq::empty()),
            goal == rules::check_all(items, i as int, env@, exprs_model(out)),
        decreases exprs.len() - i,
    {
        let item = infer_expr(&exprs[i], env)?;
        let ghost before = exprs_model(out);
        out.push(item);
        assert(exprs_model(out) =~= before.push(item@));
        i += 1;
    }
    Ok(out)
}

/// Checks a function in the scope of all functions.
fn infer_function(func: &Function<()>, env: &Rc<Table<Type>>) -> (r: Result<
    Function<Type>,
    Traced<Error>,
>)
    ensures
        match rules::check_function(func@, env@) {
            Ok(f) => r matches Ok(x) && x@ == f,
            Err(e) => r matches Err(x) && x@ == e,
        },
{
    let mut new_env = TypeEnv::over(env);
    let ghost params = params_model(func.args);
    let mut i: usize = 0;
    while i < func.args.len()
        invariant
            0 <= i <= func.args.len(),
            params == params_model(func.args),
            rules::with_params(new_env@, params, i as int) == rules::with_params(env@, params, 0),
        decreases func.args.len() - i,
    {
        new_env.insert(func.args[i].0.clone(), func.args[i].1.duplicate());
        i += 1;
    }
    let new_body = infer_seq(&func.body, &mut new_env)?;
    match last_type(&new_body.0).expect(&func.ret) {
        Ok(_) => {},
        Err(e) => {
            return Err(Traced::new(e).note(return_note(&func.name)));
        },
    }
    Ok(
        Function {
            name: func.name.clone(),
            args: duplicate_params(&func.args),
            ret: func.ret.duplicate(),
            body: new_body,
        },
    )
}

/// Checks a program: the same program with a type at every expression, or
/// the first type error. Before any body is checked, no two functions may
/// share a name, and `main` must take nothing and return an integer.
pub fn infer(prgm: Program<()>) -> (r: Result<Program<Type>, Traced<Error>>)
    ensures
        match rules::check_program(prgm@) {
            Ok(p) => r matches Ok(x) && x@ == p,
            Err(e) => r matches Err(x) && x@ == e,
        },
{
    let funcs = &prgm.0;
    let ghost models = functions_model(*funcs);
    let mut env: Table<Type> = Table::new();
    let mut i: usize = 0;
    while i < funcs.len()
        invariant
            0 <= i <= funcs.len(),
            models == functions_model(*funcs),
            rules::signatures(models, i as int, env@) == rules::signatures(
                models,
                0,
                Map::empty(),
            ),
            models == prgm@,
        decreases funcs.len() - i,
    {
        let func = &funcs[i];
        assert(models[i as int] == funcs@[i as int]@);
        let ty = func.get_type();
        match env.get(&func.name) {
            Some(earlier) => {
                return Err(
                    Traced::new(Error::Redeclaration(ty, earlier.duplicate(), func.name.clone())),
                );
            },
            None => {},
        }
        env.insert(func.name.clone(), ty);
        i += 1;
    }
    let env = Rc::new(env);
    let main = "main".to_owned();
    match env.get(&main) {
        Some(f) => {
            let none: Vec<Type> = Vec::new();
            assert(types_model(none) =~= Seq::<SpecType>::empty());
            let entry = Type::Function { args: none, ret: Box::new(Type::integer()) };
            expect_as(f, &entry, "In function main()")?;
        },
        None => {
            return Err(
                Traced::new(Error::FunctionNotFound(main)).note(
                    "You need to declare a main() function".to_owned(),
                ),
            );
        },
    }
    let mut new_funcs: Vec<Function<Type>> = Vec::new();
    assert(functions_model(new_funcs) =~= Seq::<SpecFunction>::empty());
    let mut j: usize = 0;
    while j < funcs.len()
        invariant
            0 <= j <= funcs.len(),
            models == functions_model(*funcs),
            rules::check_functions(models, j as int, env@, functions_model(new_funcs))
                == rules::check_program(models),
            models == prgm@,
        decreases funcs.len() - j,
    {
        assert(models[j as int] == funcs@[j as int]@);
        let f = match infer_function(&funcs[j], &env) {
            Ok(f) => f,
            Err(e) => {
                return Err(e.note(function_note(&funcs[j].name)));
            },
        };
        let ghost before = functions_model(new_funcs);
        new_funcs.push(f);
        assert(functions_model(new_funcs) =~= before.push(f@));
        j += 1;
    }
    Ok(Program(new_funcs))
}

} // verus!
