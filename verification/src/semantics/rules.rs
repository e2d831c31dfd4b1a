//! The typing rules, as functions on the model of the syntax tree.
//!
//! Checking an expression gives the same expression with a type at every
//! node, and the scope as the expression leaves it. One scope runs through a
//! whole function: a binding lasts from where it stands to the end of the
//! function, whatever braces it stands in.
//!
//! A check that stops gives the error, the notes that say which rule was
//! broken and where, and the scope as the parts before the failing one left
//! it.

use vstd::prelude::*;
use crate::ast::prettyprint::{expression_text, operator_text};
use crate::ast::tree::{Operator, SpecExpr, SpecExpression, SpecFunction, SpecValue};
use crate::error::{bare, noted, SpecTraced};
use crate::semantics::error::SpecError;
use crate::semantics::types::{spec_integer, spec_unit, SpecType};

verus! {

/// A scope: the type of each name that is bound.
pub type Scope = Map<Seq<char>, SpecType>;

/// What a check of one type against another gives: a value, or the error.
pub type Checked<A> = Result<A, SpecError>;

/// What a rule gives: a value, or the error with the note of the rule that
/// was broken.
pub type Ruled<A> = Result<A, SpecTraced<SpecError>>;

/// A check that stopped: the error with its notes, and the scope as the
/// expressions before the failing one left it.
pub ghost struct Refusal {
    pub failure: SpecTraced<SpecError>,
    pub scope: Scope,
}

/// What the check of a part of a body gives: a value and the scope after
/// it, or where and why the check stopped.
pub type Pass<A> = Result<(A, Scope), Refusal>;

/// The check stops with the failure `t` in the scope `scope`.
pub open spec fn refuse(t: SpecTraced<SpecError>, scope: Scope) -> Refusal {
    Refusal { failure: t, scope }
}

/// The type without the mutable marker at its top, if it has one.
pub open spec fn pop_mut(t: SpecType) -> SpecType {
    match t {
        SpecType::Mutable(inner) => *inner,
        _ => t,
    }
}

/// The type that a reference type refers to; any other type is itself.
pub open spec fn pop_ref(t: SpecType) -> SpecType {
    match t {
        SpecType::Reference(inner) => *inner,
        _ => t,
    }
}

/// Whether two types are equal once a mutable marker at the top of either
/// is set aside.
pub open spec fn same_type(a: SpecType, b: SpecType) -> bool {
    pop_mut(a) == pop_mut(b)
}

/// Accepts `found` where it is the same type as `wanted`.
pub open spec fn expect(found: SpecType, wanted: SpecType) -> Checked<()> {
    if same_type(found, wanted) {
        Ok(())
    } else {
        Err(SpecError::UnexpectedType(found, wanted))
    }
}

/// Accepts `found` where it is the same type as `wanted`; the error gets
/// the note `note`.
pub open spec fn expect_as(found: SpecType, wanted: SpecType, note: Seq<char>) -> Ruled<()> {
    match expect(found, wanted) {
        Ok(_) => Ok(()),
        Err(e) => Err(noted(bare(e), note)),
    }
}

/// The note on an operand of `!` that is no boolean.
pub open spec fn not_note() -> Seq<char> {
    "Unary negation on non-boolean"@
}

/// The note on an operand of a prefix `-` that is no integer.
pub open spec fn negation_note() -> Seq<char> {
    "Unary negation on non-integer"@
}

/// The note on a value assigned to a target of another type.
pub open spec fn assignment_note() -> Seq<char> {
    "Invalid operand types for assignment"@
}

/// The note on an array index that is no integer.
pub open spec fn index_note() -> Seq<char> {
    "Invalid index type for array"@
}

/// The note on operands of an arithmetic operator that differ in type.
pub open spec fn arith_pair_note() -> Seq<char> {
    "Invalid operand types for arithmetic operator"@
}

/// The note on an operand of an arithmetic operator that is no integer.
pub open spec fn arith_note() -> Seq<char> {
    "Invalid operand type for arithmetic operator"@
}

/// The note on operands of a comparison that differ in type.
pub open spec fn comparison_note() -> Seq<char> {
    "Invalid operand type for comparison operator"@
}

/// The note on an operand of a logical operator that is no boolean.
pub open spec fn logical_note() -> Seq<char> {
    "Invalid operand type for logical operator"@
}

/// The note on an item of an array literal of another type than the first.
pub open spec fn element_note() -> Seq<char> {
    "Array element type mismatch"@
}

/// The note on an argument of another type than its parameter.
pub open spec fn argument_note() -> Seq<char> {
    "Argument type mismatch"@
}

/// The note on a condition of `if` that is no boolean.
pub open spec fn if_note() -> Seq<char> {
    "If condition must be a boolean"@
}

/// The note on branches of `if` that differ in type.
pub open spec fn branches_note() -> Seq<char> {
    "If-else branches must have the same type"@
}

/// The note on a condition of `while` that is no boolean.
pub open spec fn while_note() -> Seq<char> {
    "While condition must be a boolean"@
}

/// The note on a binding whose value has another type than it declares.
pub open spec fn binding_note(name: Seq<char>) -> Seq<char> {
    "Type mismatch for variable '"@ + name + "'"@
}

/// The note on a prefix or postfix operator that does not fit its checked
/// operand.
pub open spec fn unary_note(op: Operator, rhs: SpecExpression) -> Seq<char> {
    "On unary expression: ("@ + operator_text(op) + " "@ + expression_text(rhs) + ")"@
}

/// The note on an infix operator that does not fit its checked operands.
pub open spec fn binary_note(lhs: SpecExpression, op: Operator, rhs: SpecExpression) -> Seq<char> {
    "On binary expression: ("@ + expression_text(lhs) + " "@ + operator_text(op) + " "@
        + expression_text(rhs) + ")"@
}

/// The note on a body whose last expression has another type than the
/// function returns.
pub open spec fn return_note(name: Seq<char>) -> Seq<char> {
    "Return type mismatch for function "@ + name
}

/// The note on any error in the function called `name`.
pub open spec fn function_note(name: Seq<char>) -> Seq<char> {
    "In function '"@ + name + "'"@
}

/// The note on a `main` of another type than the entry point's.
pub open spec fn entry_note() -> Seq<char> {
    "In function main()"@
}

/// The note on a program without `main`.
pub open spec fn missing_entry_note() -> Seq<char> {
    "You need to declare a main() function"@
}

/// The type of a part of a value of type `whole`, where the part taken
/// alone has type `part`: a part of a mutable value is mutable, unless it is
/// an array or a tuple.
pub open spec fn rewrap(whole: SpecType, part: SpecType) -> SpecType {
    if whole is Mutable {
        match part {
            SpecType::Array(_, _) => part,
            SpecType::Tuple(_) => part,
            SpecType::Mutable(_) => part,
            _ => SpecType::Mutable(Box::new(part)),
        }
    } else {
        part
    }
}

/// The type of item `i` of a value of type `t`, which must be a tuple type
/// of more than `i` items.
pub open spec fn tuple_item(t: SpecType, i: usize) -> Checked<SpecType> {
    match t {
        SpecType::Tuple(items) => if i < items.len() {
            Ok(items[i as int])
        } else {
            Err(SpecError::InvalidTupleIndex(t))
        },
        _ => Err(SpecError::InvalidTupleIndex(t)),
    }
}

/// The type of `op` applied to an operand of type `t`.
pub open spec fn unary_type(op: Operator, t: SpecType) -> Ruled<SpecType> {
    match op {
        Operator::Not => match expect_as(t, SpecType::Bool, not_note()) {
            Ok(_) => Ok(SpecType::Bool),
            Err(e) => Err(e),
        },
        Operator::Sub => match expect_as(t, spec_integer(), negation_note()) {
            Ok(_) => Ok(spec_integer()),
            Err(e) => Err(e),
        },
        Operator::TupleIndex(i) => match tuple_item(pop_mut(t), i) {
            Ok(item) => Ok(rewrap(t, item)),
            Err(e) => Err(bare(e)),
        },
        Operator::Ref => Ok(rewrap(t, SpecType::Reference(Box::new(pop_mut(t))))),
        Operator::Mul => match pop_mut(t) {
            SpecType::Reference(inner) => Ok(rewrap(t, *inner)),
            other => Err(bare(SpecError::InvalidDereference(other))),
        },
        _ => Err(bare(SpecError::InvalidUnary(op))),
    }
}

/// The type of `op` applied to operands of types `lhs` and `rhs`, and the
/// type that the left operand is then annotated with: an assignment strips
/// the mutable marker from its target.
pub open spec fn binary_type(op: Operator, lhs: SpecType, rhs: SpecType) -> Ruled<
    (SpecType, SpecType),
> {
    if op is Assign {
        match lhs {
            SpecType::Mutable(target) => match expect_as(rhs, *target, assignment_note()) {
                Ok(_) => Ok((spec_unit(), *target)),
                Err(e) => Err(e),
            },
            _ => Err(bare(SpecError::NotMutable(lhs))),
        }
    } else if op is ArrayIndex {
        match pop_mut(lhs) {
            SpecType::Array(item, _) => match expect_as(rhs, spec_integer(), index_note()) {
                Ok(_) => Ok((rewrap(lhs, *item), lhs)),
                Err(e) => Err(e),
            },
            other => Err(bare(SpecError::InvalidArrayIndex(other))),
        }
    } else if op.spec_is_arith() {
        match expect_as(lhs, rhs, arith_pair_note()) {
            Err(e) => Err(e),
            Ok(_) => match expect_as(lhs, spec_integer(), arith_note()) {
                Err(e) => Err(e),
                Ok(_) => Ok((spec_integer(), lhs)),
            },
        }
    } else if op.spec_is_comparison() {
        match expect_as(lhs, rhs, comparison_note()) {
            Err(e) => Err(e),
            Ok(_) => Ok((SpecType::Bool, lhs)),
        }
    } else if op.spec_is_logical() {
        match expect_as(lhs, SpecType::Bool, logical_note()) {
            Err(e) => Err(e),
            Ok(_) => match expect_as(rhs, SpecType::Bool, logical_note()) {
                Err(e) => Err(e),
                Ok(_) => Ok((SpecType::Bool, lhs)),
            },
        }
    } else {
        Err(bare(SpecError::InvalidBinary(op)))
    }
}

/// The type of a literal: a string is an array of its characters.
pub open spec fn value_type(v: SpecValue) -> SpecType {
    match v {
        SpecValue::Number(_) => spec_integer(),
        SpecValue::Bool(_) => SpecType::Bool,
        SpecValue::Char(_) => SpecType::Char,
        SpecValue::String(s) => SpecType::Array(Box::new(SpecType::Char), s.len() as usize),
    }
}

/// The type that a checked expression carries.
pub open spec fn type_of(e: SpecExpression) -> SpecType {
    match e.ty {
        Some(t) => t,
        None => spec_unit(),
    }
}

/// The types that checked expressions carry, in order.
pub open spec fn types_of(items: Seq<SpecExpression>) -> Seq<SpecType> {
    Seq::new(items.len(), |i: int| type_of(items[i]))
}

/// The types of the items of a tuple or an array whose checked items are
/// `items`: an item of a tuple or an array is not mutable, whatever it was
/// made from.
pub open spec fn item_types(items: Seq<SpecExpression>) -> Seq<SpecType> {
    Seq::new(items.len(), |i: int| pop_mut(type_of(items[i])))
}

/// The type of a checked sequence: that of its last expression.
pub open spec fn last_type(items: Seq<SpecExpression>) -> SpecType {
    if items.len() == 0 {
        spec_unit()
    } else {
        type_of(items.last())
    }
}

/// The expression `expr` with the type `t`.
pub open spec fn typed(expr: SpecExpr, t: SpecType) -> SpecExpression {
    SpecExpression { expr, ty: Some(t) }
}

/// Accepts checked expressions from index `i` on where each has the type
/// that stands at its index in `wanted`; the first that has not is
/// reported.
pub open spec fn expect_each(items: Seq<SpecExpression>, wanted: Seq<SpecType>, i: int) -> Checked<
    (),
>
    decreases items.len() - i,
{
    if !(0 <= i < items.len()) {
        Ok(())
    } else {
        match expect(type_of(items[i]), wanted[i]) {
            Err(e) => Err(e),
            Ok(_) => expect_each(items, wanted, i + 1),
        }
    }
}

/// The type of a call of a value of type `callee` with checked arguments
/// `args`: the callee must be a function, take as many parameters as there
/// are arguments, and each argument must have the type of its parameter.
pub open spec fn call_type(callee: SpecType, args: Seq<SpecExpression>) -> Ruled<SpecType> {
    match callee {
        SpecType::Function { args: params, ret } => if params.len() != args.len() {
            Err(
                bare(
                    SpecError::UnexpectedType(
                        SpecType::Function { args: types_of(args), ret },
                        callee,
                    ),
                ),
            )
        } else {
            match expect_each(args, params, 0) {
                Err(e) => Err(noted(bare(e), argument_note())),
                Ok(_) => Ok(*ret),
            }
        },
        _ => Err(bare(SpecError::ExpectedFunction(callee))),
    }
}

/// The type of an array literal with checked items `items`: there must be
/// one at least, and each must have the type of the first.
pub open spec fn array_type(items: Seq<SpecExpression>) -> Ruled<SpecType> {
    if items.len() == 0 {
        Err(bare(SpecError::EmptyArray))
    } else {
        let first = pop_mut(type_of(items[0]));
        match expect_each(items, Seq::new(items.len(), |i: int| first), 0) {
            Err(e) => Err(noted(bare(e), element_note())),
            Ok(_) => Ok(SpecType::Array(Box::new(first), items.len() as usize)),
        }
    }
}

/// The type of a conditional whose checked branches are `then_` and, where
/// there is one, `else_`: both branches must have the same type, which is
/// that of the conditional; without `else` it is the unit type.
pub open spec fn branches_type(
    then_: Seq<SpecExpression>,
    else_: Option<Seq<SpecExpression>>,
) -> Ruled<SpecType> {
    match else_ {
        Some(other) => match expect_as(last_type(then_), last_type(other), branches_note()) {
            Err(e) => Err(e),
            Ok(_) => Ok(last_type(then_)),
        },
        None => Ok(spec_unit()),
    }
}

/// The type that a binding gives its name: the declared type, which must
/// be that of the value, or else the type of the value without its mutable
/// marker; marked mutable for `var`.
pub open spec fn binding_type(declared: Option<SpecType>, value: SpecType, mutable: bool) -> Checked<
    SpecType,
> {
    let plain = pop_mut(value);
    let chosen = match declared {
        Some(d) => match expect(d, plain) {
            Err(e) => Err(e),
            Ok(_) => Ok(d),
        },
        None => Ok(plain),
    };
    match chosen {
        Err(e) => Err(e),
        Ok(t) => if mutable {
            Ok(SpecType::Mutable(Box::new(t)))
        } else {
            Ok(t)
        },
    }
}


/// Checks an expression in a scope: the expression with its types, and the
/// scope after it.
///
/// Operands and parts are checked from left to right, and the scope runs
/// through them in that order; only then is the form itself checked. Where
/// the check stops, the scope is what the parts before the failing one made
/// of it: a form that is refused binds nothing itself.
pub open spec fn check_expr(e: SpecExpression, scope: Scope) -> Pass<SpecExpression>
    decreases e, 0int,
{
    match e.expr {
        SpecExpr::Unary { op, rhs } => match check_expr(*rhs, scope) {
            Err(r) => Err(r),
            Ok((rhs, scope)) => match unary_type(op, type_of(rhs)) {
                Err(t) => Err(refuse(noted(t, unary_note(op, rhs)), scope)),
                Ok(t) => Ok((typed(SpecExpr::Unary { op, rhs: Box::new(rhs) }, t), scope)),
            },
        },
        SpecExpr::Binary { lhs, op, rhs } => match check_expr(*lhs, scope) {
            Err(r) => Err(r),
            Ok((lhs, scope)) => match check_expr(*rhs, scope) {
                Err(r) => Err(r),
                Ok((rhs, scope)) => match binary_type(op, type_of(lhs), type_of(rhs)) {
                    Err(t) => Err(refuse(noted(t, binary_note(lhs, op, rhs)), scope)),
                    Ok((t, target)) => Ok(
                        (
                            typed(
                                SpecExpr::Binary {
                                    lhs: Box::new(typed(lhs.expr, target)),
                                    op,
                                    rhs: Box::new(rhs),
                                },
                                t,
                            ),
                            scope,
                        ),
                    ),
                },
            },
        },
        SpecExpr::Value(v) => Ok((typed(SpecExpr::Value(v), value_type(v)), scope)),
        SpecExpr::Tuple(items) => match check_all(items, 0, scope, Seq::empty()) {
            Err(r) => Err(r),
            Ok((items, scope)) => Ok(
                (typed(SpecExpr::Tuple(items), SpecType::Tuple(item_types(items))), scope),
            ),
        },
        SpecExpr::Array(items) => match check_all(items, 0, scope, Seq::empty()) {
            Err(r) => Err(r),
            Ok((items, scope)) => match array_type(items) {
                Err(t) => Err(refuse(t, scope)),
                Ok(t) => Ok((typed(SpecExpr::Array(items), t), scope)),
            },
        },
        SpecExpr::Reference(name) => if scope.contains_key(name) {
            Ok((typed(SpecExpr::Reference(name), scope[name]), scope))
        } else {
            Err(refuse(bare(SpecError::VariableNotFound(name)), scope))
        },
        SpecExpr::Let { name, value, ty, mutable } => match check_expr(*value, scope) {
            Err(r) => Err(r),
            Ok((value, scope)) => match binding_type(ty, type_of(value), mutable) {
                Err(e) => Err(refuse(noted(bare(e), binding_note(name)), scope)),
                Ok(t) => if scope.contains_key(name) {
                    Err(refuse(bare(SpecError::RedeclarationVariable(name)), scope))
                } else {
                    Ok(
                        (
                            typed(
                                SpecExpr::Let { name, value: Box::new(value), ty: Some(t), mutable },
                                spec_unit(),
                            ),
                            scope.insert(name, t),
                        ),
                    )
                },
            },
        },
        SpecExpr::If { cond, then_, else_ } => match check_expr(*cond, scope) {
            Err(r) => Err(r),
            Ok((cond, scope)) => match check_all(then_, 0, scope, Seq::empty()) {
                Err(r) => Err(r),
                Ok((then_, scope)) => {
                    let other: Pass<Option<Seq<SpecExpression>>> = match else_ {
                        None => Ok((None, scope)),
                        Some(items) => match check_all(items, 0, scope, Seq::empty()) {
                            Err(r) => Err(r),
                            Ok((items, scope)) => Ok((Some(items), scope)),
                        },
                    };
                    match other {
                        Err(r) => Err(r),
                        Ok((else_, scope)) => match expect_as(
                            type_of(cond),
                            SpecType::Bool,
                            if_note(),
                        ) {
                            Err(t) => Err(refuse(t, scope)),
                            Ok(_) => match branches_type(then_, else_) {
                                Err(t) => Err(refuse(t, scope)),
                                Ok(t) => Ok(
                                    (
                                        typed(
                                            SpecExpr::If { cond: Box::new(cond), then_, else_ },
                                            t,
                                        ),
                                        scope,
                                    ),
                                ),
                            },
                        },
                    }
                },
            },
        },
        SpecExpr::Call { func, args } => match check_expr(*func, scope) {
            Err(r) => Err(r),
            Ok((func, scope)) => match check_all(args, 0, scope, Seq::empty()) {
                Err(r) => Err(r),
                Ok((args, scope)) => match call_type(type_of(func), args) {
                    Err(t) => Err(refuse(t, scope)),
                    Ok(t) => Ok((typed(SpecExpr::Call { func: Box::new(func), args }, t), scope)),
                },
            },
        },
        SpecExpr::While { cond, body } => match check_expr(*cond, scope) {
            Err(r) => Err(r),
            Ok((cond, scope)) => match check_all(body, 0, scope, Seq::empty()) {
                Err(r) => Err(r),
                Ok((body, scope)) => match expect_as(type_of(cond), SpecType::Bool, while_note()) {
                    Err(t) => Err(refuse(t, scope)),
                    Ok(_) => Ok(
                        (
                            typed(SpecExpr::While { cond: Box::new(cond), body }, spec_unit()),
                            scope,
                        ),
                    ),
                },
            },
        },
    }
}

/// Checks the expressions of `items` from index `i` on, in order, each in
/// the scope that the one before it left: the checked expressions, after
/// those of `acc`, and the scope after the last.
pub open spec fn check_all(
    items: Seq<SpecExpression>,
    i: int,
    scope: Scope,
    acc: Seq<SpecExpression>,
) -> Pass<Seq<SpecExpression>>
    decreases items, items.len() - i,
{
    if !(0 <= i < items.len()) {
        Ok((acc, scope))
    } else {
        match check_expr(items[i], scope) {
            Err(r) => Err(r),
            Ok((item, scope)) => check_all(items, i + 1, scope, acc.push(item)),
        }
    }
}

/// The type of a function: its parameters' types and its return type.
pub open spec fn signature(f: SpecFunction) -> SpecType {
    SpecType::Function {
        args: Seq::new(f.args.len(), |i: int| f.args[i].1),
        ret: Box::new(f.ret),
    }
}

/// The type that the entry point must have: no parameters, an integer.
pub open spec fn entry_type() -> SpecType {
    SpecType::Function { args: Seq::empty(), ret: Box::new(spec_integer()) }
}

/// The name of the entry point.
pub open spec fn entry_name() -> Seq<char> {
    "main"@
}

/// The scope that holds the functions of `funcs` from index `i` on, each
/// by its name with its type, beside those of `scope`. Two functions of one
/// name are an error.
pub open spec fn signatures(funcs: Seq<SpecFunction>, i: int, scope: Scope) -> Checked<Scope>
    decreases funcs.len() - i,
{
    if !(0 <= i < funcs.len()) {
        Ok(scope)
    } else if scope.contains_key(funcs[i].name) {
        Err(
            SpecError::Redeclaration(
                signature(funcs[i]),
                scope[funcs[i].name],
                funcs[i].name,
            ),
        )
    } else {
        signatures(funcs, i + 1, scope.insert(funcs[i].name, signature(funcs[i])))
    }
}

/// Accepts a scope in which the entry point is a function of no
/// parameters that returns an integer.
pub open spec fn check_entry(scope: Scope) -> Ruled<()> {
    if scope.contains_key(entry_name()) {
        expect_as(scope[entry_name()], entry_type(), entry_note())
    } else {
        Err(noted(bare(SpecError::FunctionNotFound(entry_name())), missing_entry_note()))
    }
}

/// The scope with the parameters of `params` from index `i` on bound, each
/// in place of what its name was bound to.
pub open spec fn with_params(scope: Scope, params: Seq<(Seq<char>, SpecType)>, i: int) -> Scope
    decreases params.len() - i,
{
    if !(0 <= i < params.len()) {
        scope
    } else {
        with_params(scope.insert(params[i].0, params[i].1), params, i + 1)
    }
}

/// Checks a function in the scope of all functions: its body is checked
/// with its parameters bound, and must have the declared return type.
pub open spec fn check_function(f: SpecFunction, globals: Scope) -> Ruled<SpecFunction> {
    match check_all(f.body, 0, with_params(globals, f.args, 0), Seq::empty()) {
        Err(r) => Err(r.failure),
        Ok((body, _)) => match expect_as(last_type(body), f.ret, return_note(f.name)) {
            Err(t) => Err(t),
            Ok(_) => Ok(SpecFunction { name: f.name, args: f.args, ret: f.ret, body }),
        },
    }
}

/// Checks the functions of `funcs` from index `i` on: the checked
/// functions, after those of `acc`. An error in a function gets the name of
/// the function as a note.
pub open spec fn check_functions(
    funcs: Seq<SpecFunction>,
    i: int,
    globals: Scope,
    acc: Seq<SpecFunction>,
) -> Ruled<Seq<SpecFunction>>
    decreases funcs.len() - i,
{
    if !(0 <= i < funcs.len()) {
        Ok(acc)
    } else {
        match check_function(funcs[i], globals) {
            Err(t) => Err(noted(t, function_note(funcs[i].name))),
            Ok(f) => check_functions(funcs, i + 1, globals, acc.push(f)),
        }
    }
}

/// Checks a program: no two functions share a name, the entry point is as
/// it must be, and then each function checks, in order.
pub open spec fn check_program(funcs: Seq<SpecFunction>) -> Ruled<Seq<SpecFunction>> {
    match signatures(funcs, 0, Map::empty()) {
        Err(e) => Err(bare(e)),
        Ok(globals) => match check_entry(globals) {
            Err(t) => Err(t),
            Ok(_) => check_functions(funcs, 0, globals, Seq::empty()),
        },
    }
}

} // verus!
