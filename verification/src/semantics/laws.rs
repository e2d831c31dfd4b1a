//! What holds of every program that the checker accepts.

use vstd::prelude::*;
use crate::ast::tree::{Operator, SpecExpr, SpecExpression, SpecFunction};
use crate::error::{bare, SpecTraced};
use crate::semantics::error::SpecError;
use crate::semantics::rules::{
    binary_type, binding_type, call_type, check_expr, check_program, entry_name, entry_type,
    expect_each, pop_mut, refuse, same_type, signature, signatures, type_of, typed, unary_type,
    value_type, Refusal, Scope,
};
use crate::semantics::types::{spec_integer, spec_unit, SpecType};

verus! {

/// Whether a function can be the entry point: it is named `main`, takes
/// nothing and returns an integer.
pub open spec fn is_entry(f: SpecFunction) -> bool {
    f.name == entry_name() && f.args.len() == 0 && f.ret == spec_integer()
}

/// Whether a program has an entry point.
pub open spec fn has_entry(funcs: Seq<SpecFunction>) -> bool {
    exists|i: int| 0 <= i < funcs.len() && is_entry(#[trigger] funcs[i])
}

/// Whether an error is one of those that a program without an entry point
/// is rejected with: two functions of one name, no `main`, or a `main` of
/// another type than the entry point's.
pub open spec fn is_entry_error(e: SpecError) -> bool {
    e is Redeclaration || e == SpecError::FunctionNotFound(entry_name()) || (e matches SpecError::UnexpectedType(
        _,
        wanted,
    ) && wanted == entry_type())
}

/// The scope of signatures binds a name either as the scope it started
/// from did, or to the type of a function of that name.
proof fn lemma_signatures(funcs: Seq<SpecFunction>, i: int, scope: Scope)
    requires
        0 <= i <= funcs.len(),
    ensures
        match signatures(funcs, i, scope) {
            Ok(env) => forall|k: Seq<char>| #[trigger]
                env.contains_key(k) ==> (scope.contains_key(k) && env[k] == scope[k]) || (exists|
                    j: int,
                |
                    i <= j < funcs.len() && (#[trigger] funcs[j]).name == k && env[k] == signature(
                        funcs[j],
                    )),
            Err(e) => e is Redeclaration,
        },
    decreases funcs.len() - i,
{
    if i < funcs.len() && !scope.contains_key(funcs[i].name) {
        let next = scope.insert(funcs[i].name, signature(funcs[i]));
        lemma_signatures(funcs, i + 1, next);
        match signatures(funcs, i + 1, next) {
            Ok(env) => {
                assert forall|k: Seq<char>| #[trigger] env.contains_key(k) implies (
                scope.contains_key(k) && env[k] == scope[k]) || (exists|j: int|
                    i <= j < funcs.len() && (#[trigger] funcs[j]).name == k && env[k] == signature(
                        funcs[j],
                    )) by {
                    if next.contains_key(k) && env[k] == next[k] {
                        if k == funcs[i].name {
                            assert(funcs[i].name == k && env[k] == signature(funcs[i]));
                        }
                    } else {
                        let j = choose|j: int|
                            i + 1 <= j < funcs.len() && (#[trigger] funcs[j]).name == k && env[k]
                                == signature(funcs[j]);
                        assert(i <= j < funcs.len() && funcs[j].name == k && env[k] == signature(
                            funcs[j],
                        ));
                    }
                }
            },
            Err(e) => {},
        }
    }
}

/// A program without a function `main` that takes nothing and returns an
/// integer does not type-check: it is rejected for two functions of one
/// name, for want of `main`, or for the type of `main`.
pub proof fn law_entry_point(funcs: Seq<SpecFunction>)
    requires
        !has_entry(funcs),
    ensures
        check_program(funcs) matches Err(e) && is_entry_error(e.error),
{
    lemma_signatures(funcs, 0, Map::empty());
    match signatures(funcs, 0, Map::empty()) {
        Ok(env) => {
            if env.contains_key(entry_name()) {
                let j = choose|j: int|
                    0 <= j < funcs.len() && (#[trigger] funcs[j]).name == entry_name()
                        && env[entry_name()] == signature(funcs[j]);
                assert(!is_entry(funcs[j]));
                if signature(funcs[j]) == entry_type() {
                    assert(signature(funcs[j])->args.len() == 0);
                    assert(funcs[j].args.len() == 0);
                }
            }
        },
        Err(e) => {},
    }
}

/// Checked expressions from an index on are accepted against wanted types
/// exactly when each has the type wanted at its index.
pub proof fn lemma_expect_each(items: Seq<SpecExpression>, wanted: Seq<SpecType>, i: int)
    requires
        0 <= i <= items.len(),
    ensures
        expect_each(items, wanted, i) is Ok <==> (forall|j: int|
            i <= j < items.len() ==> same_type(type_of(#[trigger] items[j]), wanted[j])),
        expect_each(items, wanted, i) matches Err(e) ==> e is UnexpectedType,
    decreases items.len() - i,
{
    if i < items.len() {
        lemma_expect_each(items, wanted, i + 1);
        if same_type(type_of(items[i]), wanted[i]) {
            assert forall|j: int| i <= j < items.len() && expect_each(items, wanted, i)
                is Ok implies same_type(type_of(#[trigger] items[j]), wanted[j]) by {
                if j > i {
                }
            }
        }
    }
}

/// A call type-checks exactly when what is called is a function, there
/// are as many arguments as it has parameters, and each argument has the
/// type of its parameter; the call then has the function's return type.
/// Any other call is rejected.
pub proof fn law_call(callee: SpecType, args: Seq<SpecExpression>)
    ensures
        call_type(callee, args) is Ok <==> (callee matches SpecType::Function { args: params, .. }
            && params.len() == args.len() && (forall|j: int|
            0 <= j < args.len() ==> same_type(type_of(#[trigger] args[j]), params[j]))),
        call_type(callee, args) matches Ok(t) ==> (callee matches SpecType::Function { ret, .. }
            && t == *ret),
        call_type(callee, args) matches Err(e) ==> e.error is UnexpectedType || e.error
            is ExpectedFunction,
{
    match callee {
        SpecType::Function { args: params, ret } => {
            lemma_expect_each(args, params, 0);
        },
        _ => {},
    }
}

/// A call that the checker accepts is a call of a function with as many
/// arguments as it has parameters, each of the parameter's type.
pub proof fn law_checked_call(e: SpecExpression, scope: Scope)
    requires
        e.expr is Call,
    ensures
        check_expr(e, scope) matches Ok((checked, _)) ==> (checked.expr matches SpecExpr::Call {
            func,
            args,
        } && type_of(*func) matches SpecType::Function { args: params, ret } && params.len()
            == args.len() && type_of(checked) == *ret && (forall|j: int|
            0 <= j < args.len() ==> same_type(type_of(#[trigger] args[j]), params[j]))),
{
    match check_expr(e, scope) {
        Ok((checked, _)) => {
            match checked.expr {
                SpecExpr::Call { func, args } => {
                    law_call(type_of(*func), args);
                },
                _ => {},
            }
        },
        Err(_) => {},
    }
}

/// A tuple index type-checks exactly when what is indexed is a tuple of
/// more items than the index; any other is rejected as an invalid tuple
/// index, whatever the values at run time would be.
pub proof fn law_tuple_index(i: usize, t: SpecType)
    ensures
        unary_type(Operator::TupleIndex(i), t) is Ok <==> (pop_mut(t) matches SpecType::Tuple(items)
            && i < items.len()),
        unary_type(Operator::TupleIndex(i), t) matches Err(e) ==> e == bare(
            SpecError::InvalidTupleIndex(pop_mut(t)),
        ),
{
}

/// A tuple index that the checker accepts is applied to a tuple of more
/// items than the index.
pub proof fn law_checked_tuple_index(e: SpecExpression, scope: Scope)
    requires
        e.expr matches SpecExpr::Unary { op, .. } && op is TupleIndex,
    ensures
        check_expr(e, scope) matches Ok((checked, _)) ==> (checked.expr matches SpecExpr::Unary {
            op: Operator::TupleIndex(i),
            rhs,
        } && pop_mut(type_of(*rhs)) matches SpecType::Tuple(items) && i < items.len()),
{
}

/// An array index type-checks exactly when what is indexed is an array
/// and the index is an integer.
pub proof fn law_array_index(lhs: SpecType, rhs: SpecType)
    ensures
        binary_type(Operator::ArrayIndex, lhs, rhs) is Ok <==> (pop_mut(lhs) is Array && same_type(
            rhs,
            spec_integer(),
        )),
        !(pop_mut(lhs) is Array) ==> binary_type(Operator::ArrayIndex, lhs, rhs) == Err::<
            (SpecType, SpecType),
            SpecTraced<SpecError>,
        >(bare(SpecError::InvalidArrayIndex(pop_mut(lhs)))),
{
}

/// An assignment type-checks exactly when its target is mutable and the
/// value has the target's type; a target that is not mutable is rejected as
/// such.
pub proof fn law_assignment(lhs: SpecType, rhs: SpecType)
    ensures
        binary_type(Operator::Assign, lhs, rhs) is Ok <==> (lhs matches SpecType::Mutable(target)
            && same_type(rhs, *target)),
        !(lhs is Mutable) ==> binary_type(Operator::Assign, lhs, rhs) == Err::<
            (SpecType, SpecType),
            SpecTraced<SpecError>,
        >(bare(SpecError::NotMutable(lhs))),
        binary_type(Operator::Assign, lhs, rhs) matches Ok((t, _)) ==> t == spec_unit(),
{
}

/// A binding of a name that is bound already is rejected as a
/// redeclaration, and the scope keeps the earlier binding: it is as the
/// value of the binding left it.
pub proof fn law_redeclared_variable(e: SpecExpression, scope: Scope)
    requires
        e.expr is Let,
    ensures
        match check_expr(*e.expr->Let_value, scope) {
            Ok((value, after)) => binding_type(
                e.expr->Let_ty,
                type_of(value),
                e.expr->Let_mutable,
            ) is Ok && after.contains_key(e.expr->Let_name) ==> check_expr(e, scope) == Err::<
                (SpecExpression, Scope),
                Refusal,
            >(refuse(bare(SpecError::RedeclarationVariable(e.expr->Let_name)), after)),
            Err(r) => check_expr(e, scope) == Err::<(SpecExpression, Scope), Refusal>(r),
        },
{
}

/// A literal leaves the scope as it was, so a binding of a literal to a
/// name that is bound already leaves the scope as it was.
pub proof fn law_redeclared_literal(e: SpecExpression, scope: Scope)
    requires
        e.expr matches SpecExpr::Let { name, value, ty, .. } && value.expr is Value && ty
            is None && scope.contains_key(name),
    ensures
        check_expr(e, scope) == Err::<(SpecExpression, Scope), Refusal>(
            refuse(bare(SpecError::RedeclarationVariable(e.expr->Let_name)), scope),
        ),
{
    let value = *e.expr->Let_value;
    let literal = value.expr->Value_0;
    assert(check_expr(value, scope) == Ok::<(SpecExpression, Scope), Refusal>(
        (typed(SpecExpr::Value(literal), value_type(literal)), scope),
    ));
}

/// A name that is not in scope is rejected as not found, and the scope
/// is as it was.
pub proof fn law_unknown_name(e: SpecExpression, scope: Scope)
    requires
        e.expr matches SpecExpr::Reference(name) && !scope.contains_key(name),
    ensures
        check_expr(e, scope) == Err::<(SpecExpression, Scope), Refusal>(
            refuse(bare(SpecError::VariableNotFound(e.expr->Reference_0)), scope),
        ),
{
}

} // verus!
