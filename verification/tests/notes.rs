use exprlang::ast::tree::{Expr, Expression, Operator, Value as Literal};
use exprlang::error::{Error, Traced};
use exprlang::interpreter::env::Env;
use exprlang::interpreter::error::Error as RunError;
use exprlang::interpreter::run::{run_expr, run_exprs, NO_LIMIT};
use exprlang::interpreter::value::Value;
use exprlang::run_str;
use exprlang::semantics::error::Error as TypeError;
use exprlang::semantics::typeinfer::{infer_expr, infer_exprs, TypeEnv};
use exprlang::semantics::types::{Size, Type};

fn i32_type() -> Type {
    Type::Signed(Size::ThirtyTwo)
}

fn number(n: i64) -> Expression<()> {
    Expression { expr: Expr::Value(Literal::Number(n)), ty: () }
}

fn name(x: &str) -> Expression<()> {
    Expression { expr: Expr::Reference(x.to_string()), ty: () }
}

fn binary(lhs: Expression<()>, op: Operator, rhs: Expression<()>) -> Expression<()> {
    Expression { expr: Expr::Binary { lhs: Box::new(lhs), op, rhs: Box::new(rhs) }, ty: () }
}

fn bind(x: &str, value: Expression<()>, mutable: bool) -> Expression<()> {
    Expression {
        expr: Expr::Let { name: x.to_string(), value: Box::new(value), ty: None, mutable },
        ty: (),
    }
}

fn call(f: &str, args: Vec<Expression<()>>) -> Expression<()> {
    Expression { expr: Expr::Call { func: Box::new(name(f)), args }, ty: () }
}

fn notes_of_type_error(src: &str) -> (TypeError, Vec<String>) {
    match run_str(src) {
        Err(Error::Infer(Traced { error, context })) => (error, context),
        other => panic!("expected a type error, got {:?}", other),
    }
}

fn notes_of_run_error(src: &str) -> (RunError, Vec<String>) {
    match run_str(src) {
        Err(Error::Interpreter(Traced { error, context })) => (error, context),
        other => panic!("expected a runtime error, got {:?}", other),
    }
}

fn env_with_x() -> Env<()> {
    let mut env: Env<()> = Env::new();
    env.insert("x", Value::Signed(1), true);
    env
}

#[test]
fn a_note_is_added_outermost() {
    let plain = Traced::new(RunError::DivisionByZero);
    assert!(plain.context.is_empty());
    let noted = plain.note("first".to_string()).note("second".to_string());
    assert!(matches!(noted.error, RunError::DivisionByZero));
    assert_eq!(noted.context, vec!["first".to_string(), "second".to_string()]);
}

#[test]
fn a_call_of_an_unknown_name_leaves_the_environment() {
    let mut env = env_with_x();
    let r = run_expr(&call("g", vec![number(1)]), &mut env, NO_LIMIT);
    match r {
        Err(Traced { error: RunError::UndefinedVariable(n), context }) => {
            assert_eq!(n, "g");
            assert!(context.is_empty());
        },
        other => panic!("{:?}", other),
    }
    assert_eq!(env.get(&"x".to_string()).expect("bound"), Value::Signed(1));
    assert!(env.get(&"g".to_string()).is_err());
}

#[test]
fn an_assignment_to_no_variable_leaves_the_environment() {
    let mut env = env_with_x();
    let target = binary(number(1), Operator::Add, number(2));
    let r = run_expr(&binary(target, Operator::Assign, name("x")), &mut env, NO_LIMIT);
    assert!(matches!(
        r,
        Err(Traced { error: RunError::InvalidAssignment(t), context }) if t == "(1 + 2)" && context.is_empty()
    ));
    assert_eq!(env.get(&"x".to_string()).expect("bound"), Value::Signed(1));
}

#[test]
fn the_steps_before_a_failure_are_kept() {
    let mut env = env_with_x();
    let steps = vec![
        binary(name("x"), Operator::Assign, number(2)),
        bind("y", number(5), false),
        binary(number(1), Operator::Div, number(0)),
        binary(name("x"), Operator::Assign, number(3)),
    ];
    let r = run_exprs(&steps, &mut env, NO_LIMIT);
    match r {
        Err(Traced { error: RunError::DivisionByZero, context }) => {
            assert_eq!(context, vec!["On expression: (1 / 0)".to_string()]);
        },
        other => panic!("{:?}", other),
    }
    assert_eq!(env.get(&"x".to_string()).expect("bound"), Value::Signed(2));
    assert_eq!(env.get(&"y".to_string()).expect("bound"), Value::Signed(5));
}

#[test]
fn a_failed_call_leaves_the_callers_environment() {
    let f = exprlang::parser::parser::parse("fn f(a: i32) -> i32 { var x = 9; x / 0 }").expect("parses");
    let mut env: Env<()> = Env::from_funcs(f.0);
    env.insert("x", Value::Signed(1), true);
    let r = run_expr(&call("f", vec![number(4)]), &mut env, NO_LIMIT);
    match r {
        Err(Traced { error: RunError::DivisionByZero, context }) => {
            assert_eq!(
                context,
                vec!["On expression: (x / 0)".to_string(), "On call to function 'f'".to_string()]
            );
        },
        other => panic!("{:?}", other),
    }
    assert_eq!(env.get(&"x".to_string()).expect("bound"), Value::Signed(1));
    assert!(env.get(&"a".to_string()).is_err());
}

#[test]
fn runtime_errors_carry_the_way_to_them() {
    let (e, context) = notes_of_run_error("fn f() -> i32 { 1 / 0 } fn main() -> i32 { let a = 1; f() }");
    assert!(matches!(e, RunError::DivisionByZero));
    assert_eq!(
        context,
        vec![
            "On expression: (1 / 0)".to_string(),
            "On call to function 'f'".to_string(),
            "On expression: f()".to_string(),
        ]
    );
    let (e, context) = notes_of_run_error("fn main() -> i32 { 7 }");
    assert!(matches!(e, RunError::NonZeroExitCode(7)));
    assert!(context.is_empty());
}

#[test]
fn a_main_of_another_type_is_noted_at_run_time() {
    let prgm = exprlang::parser::parser::parse("fn main() -> bool { true }").expect("parses");
    match exprlang::interpreter::run::run_program(prgm) {
        Err(Traced { error: RunError::UnexpectedType(a, Type::Bool), context }) => {
            assert_eq!(a, i32_type());
            assert_eq!(context, vec!["main() function should return i32".to_string()]);
        },
        other => panic!("{:?}", other),
    }
}

#[test]
fn a_redeclared_variable_keeps_its_earlier_binding() {
    let mut scope: TypeEnv = TypeEnv::new();
    scope.insert("x".to_string(), Type::Bool);
    let r = infer_expr(&bind("x", number(2), true), &mut scope);
    assert!(matches!(
        r,
        Err(Traced { error: TypeError::RedeclarationVariable(n), context }) if n == "x" && context.is_empty()
    ));
    assert_eq!(scope.get(&"x".to_string()), Some(&Type::Bool));
}

#[test]
fn the_bindings_before_a_type_error_are_kept() {
    let mut scope: TypeEnv = TypeEnv::new();
    scope.insert("x".to_string(), Type::Bool);
    let steps = vec![bind("y", number(1), false), bind("x", number(2), false), bind("z", number(3), false)];
    let r = infer_exprs(&steps, &mut scope);
    assert!(matches!(r, Err(Traced { error: TypeError::RedeclarationVariable(n), .. }) if n == "x"));
    assert_eq!(scope.get(&"x".to_string()), Some(&Type::Bool));
    assert_eq!(scope.get(&"y".to_string()), Some(&i32_type()));
    assert!(!scope.contains_key(&"z".to_string()));
}

#[test]
fn an_unknown_name_leaves_the_scope() {
    let mut scope: TypeEnv = TypeEnv::new();
    scope.insert("x".to_string(), Type::Bool);
    let r = infer_expr(&call("g", vec![bind("y", number(1), false)]), &mut scope);
    assert!(matches!(r, Err(Traced { error: TypeError::VariableNotFound(n), .. }) if n == "g"));
    assert_eq!(scope.get(&"x".to_string()), Some(&Type::Bool));
    assert!(!scope.contains_key(&"y".to_string()));
}

#[test]
fn type_errors_carry_the_way_to_them() {
    let (e, context) = notes_of_type_error("fn main() -> i32 { 1 + true }");
    assert!(matches!(e, TypeError::UnexpectedType(_, Type::Bool)));
    assert_eq!(
        context,
        vec![
            "Invalid operand types for arithmetic operator".to_string(),
            "On binary expression: (1 + true)".to_string(),
            "In function 'main'".to_string(),
        ]
    );
    let (_, context) = notes_of_type_error("fn main() -> i32 { true + true }");
    assert_eq!(context[0], "Invalid operand type for arithmetic operator");
    let (_, context) = notes_of_type_error("fn main() -> i32 { !1 }");
    assert_eq!(
        context,
        vec![
            "Unary negation on non-boolean".to_string(),
            "On unary expression: (! 1)".to_string(),
            "In function 'main'".to_string(),
        ]
    );
    let (_, context) = notes_of_type_error("fn main() -> i32 { -true }");
    assert_eq!(context[0], "Unary negation on non-integer");
    let (_, context) = notes_of_type_error("fn main() -> i32 { var x = 1; x = true; 0 }");
    assert_eq!(context[0], "Invalid operand types for assignment");
    assert_eq!(context[1], "On binary expression: (x = true)");
    let (_, context) = notes_of_type_error("fn main() -> i32 { let a = [1, 2]; a[true] }");
    assert_eq!(context[0], "Invalid index type for array");
    let (_, context) = notes_of_type_error("fn main() -> i32 { let b = 1 == true; 0 }");
    assert_eq!(context[0], "Invalid operand type for comparison operator");
    let (_, context) = notes_of_type_error("fn main() -> i32 { let b = true && 1; 0 }");
    assert_eq!(context[0], "Invalid operand type for logical operator");
    let (_, context) = notes_of_type_error("fn main() -> i32 { let a = [1, true]; 0 }");
    assert_eq!(context, vec!["Array element type mismatch".to_string(), "In function 'main'".to_string()]);
    let (_, context) = notes_of_type_error("fn main() -> i32 { let x: bool = 1; 0 }");
    assert_eq!(context, vec!["Type mismatch for variable 'x'".to_string(), "In function 'main'".to_string()]);
    let (_, context) = notes_of_type_error("fn main() -> i32 { if 1 { 2 } else { 3 } }");
    assert_eq!(context[0], "If condition must be a boolean");
    let (_, context) = notes_of_type_error("fn main() -> i32 { if true { 2 } else { 'a' } }");
    assert_eq!(context[0], "If-else branches must have the same type");
    let (_, context) = notes_of_type_error("fn main() -> i32 { while 1 { 2 }; 0 }");
    assert_eq!(context[0], "While condition must be a boolean");
    let (_, context) = notes_of_type_error("fn f(a: i32) -> i32 { a } fn main() -> i32 { f(true) }");
    assert_eq!(context, vec!["Argument type mismatch".to_string(), "In function 'main'".to_string()]);
    let (e, context) = notes_of_type_error("fn main() -> i32 { y }");
    assert!(matches!(e, TypeError::VariableNotFound(n) if n == "y"));
    assert_eq!(context, vec!["In function 'main'".to_string()]);
}

#[test]
fn errors_of_a_whole_function_are_noted() {
    let (e, context) = notes_of_type_error("fn f() -> bool { 1 } fn main() -> i32 { 0 }");
    assert!(matches!(e, TypeError::UnexpectedType(_, Type::Bool)));
    assert_eq!(
        context,
        vec!["Return type mismatch for function f".to_string(), "In function 'f'".to_string()]
    );
    let (e, context) = notes_of_type_error("fn f() -> i32 { 0 }");
    assert!(matches!(e, TypeError::FunctionNotFound(n) if n == "main"));
    assert_eq!(context, vec!["You need to declare a main() function".to_string()]);
    let (_, context) = notes_of_type_error("fn main() -> bool { true }");
    assert_eq!(context, vec!["In function main()".to_string()]);
    let (e, context) = notes_of_type_error("fn f() -> i32 { 0 } fn f() -> i32 { 1 } fn main() -> i32 { 0 }");
    assert!(matches!(e, TypeError::Redeclaration(_, _, n) if n == "f"));
    assert!(context.is_empty());
}

#[test]
fn a_function_of_another_type_is_noted_by_its_name() {
    let parsed = exprlang::parser::parser::parse("fn f(a: i32) -> bool { true }").expect("parses");
    let f = &parsed.0[0];
    let wanted = Type::Function { args: vec![i32_type()], ret: Box::new(Type::Bool) };
    assert!(f.expect(&wanted).is_ok());
    match f.expect(&Type::Bool) {
        Err(Traced { error: TypeError::UnexpectedType(found, Type::Bool), context }) => {
            assert_eq!(found, wanted);
            assert_eq!(context, vec!["In function 'f'".to_string()]);
        },
        other => panic!("{:?}", other),
    }
}
