use exprlang::error::{Error, Traced};
use exprlang::interpreter::error::Error as RunError;
use exprlang::semantics::error::Error as TypeError;
use exprlang::semantics::types::{Size, Type};
use exprlang::{run_str, run_str_within};

fn i32_type() -> Type {
    Type::Signed(Size::ThirtyTwo)
}

fn type_error(src: &str) -> TypeError {
    match run_str(src) {
        Err(Error::Infer(e)) => e.error,
        other => panic!("expected a type error, got {:?}", other),
    }
}

fn run_error(src: &str) -> RunError {
    match run_str(src) {
        Err(Error::Interpreter(e)) => e.error,
        other => panic!("expected a runtime error, got {:?}", other),
    }
}

fn exit_code(src: &str) -> i64 {
    match run_str(src) {
        Ok(()) => 0,
        Err(Error::Interpreter(Traced { error: RunError::NonZeroExitCode(n), .. })) => n,
        other => panic!("expected an exit code, got {:?}", other),
    }
}

#[test]
fn main_returning_zero_succeeds() {
    assert!(matches!(run_str("fn main() -> i32 { 0 }"), Ok(())));
}

#[test]
fn main_returning_seven_reports_seven() {
    assert!(matches!(
        run_str("fn main() -> i32 { 7 }"),
        Err(Error::Interpreter(Traced { error: RunError::NonZeroExitCode(7), .. }))
    ));
}

#[test]
fn a_program_without_main_fails_the_check() {
    assert!(matches!(type_error("fn f() -> i32 { 0 }"), TypeError::FunctionNotFound(n) if n == "main"));
    assert!(matches!(type_error(""), TypeError::FunctionNotFound(n) if n == "main"));
}

#[test]
fn main_with_parameters_or_another_return_type_fails_the_check() {
    let expected = Type::Function { args: vec![], ret: Box::new(i32_type()) };
    match type_error("fn main(x: i32) -> i32 { 0 }") {
        TypeError::UnexpectedType(found, wanted) => {
            assert_eq!(found, Type::Function { args: vec![i32_type()], ret: Box::new(i32_type()) });
            assert_eq!(wanted, expected);
        }
        other => panic!("{:?}", other),
    }
    match type_error("fn main() -> bool { true }") {
        TypeError::UnexpectedType(found, wanted) => {
            assert_eq!(found, Type::Function { args: vec![], ret: Box::new(Type::Bool) });
            assert_eq!(wanted, expected);
        }
        other => panic!("{:?}", other),
    }
    assert!(matches!(type_error("fn main() { 0 }"), TypeError::UnexpectedType(_, _)));
}

#[test]
fn assignment_to_an_immutable_binding_fails() {
    match type_error("fn main() -> i32 { let x = 5; x = 6; 0 }") {
        TypeError::NotMutable(t) => assert_eq!(t, i32_type()),
        other => panic!("{:?}", other),
    }
}

#[test]
fn assignment_to_a_mutable_binding_succeeds() {
    assert!(matches!(run_str("fn main() -> i32 { var x = 5; x = 6; 0 }"), Ok(())));
    assert_eq!(exit_code("fn main() -> i32 { var x = 5; x = 6; x }"), 6);
}

#[test]
fn a_call_with_too_few_arguments_fails_the_check() {
    let src = "fn add(a: i32, b: i32) -> i32 { a + b } fn main() -> i32 { add(1) }";
    match type_error(src) {
        TypeError::UnexpectedType(found, wanted) => {
            assert_eq!(found, Type::Function { args: vec![i32_type()], ret: Box::new(i32_type()) });
            assert_eq!(wanted, Type::Function { args: vec![i32_type(), i32_type()], ret: Box::new(i32_type()) });
        }
        other => panic!("{:?}", other),
    }
}

#[test]
fn a_call_with_an_argument_of_the_wrong_type_fails_the_check() {
    let src = "fn add(a: i32, b: i32) -> i32 { a + b } fn main() -> i32 { add(1, true) }";
    match type_error(src) {
        TypeError::UnexpectedType(found, wanted) => {
            assert_eq!(found, Type::Bool);
            assert_eq!(wanted, i32_type());
        }
        other => panic!("{:?}", other),
    }
}

#[test]
fn a_tuple_index_out_of_range_fails_the_check() {
    match type_error("fn main() -> i32 { (1,2).5 }") {
        TypeError::InvalidTupleIndex(t) => assert_eq!(t, Type::Tuple(vec![i32_type(), i32_type()])),
        other => panic!("{:?}", other),
    }
    assert!(matches!(type_error("fn main() -> i32 { 1.0 }"), TypeError::InvalidTupleIndex(_)));
}

#[test]
fn an_array_index_on_what_is_no_array_fails_the_check() {
    match type_error("fn main() -> i32 { let x = 1; x[0] }") {
        TypeError::InvalidArrayIndex(t) => assert_eq!(t, i32_type()),
        other => panic!("{:?}", other),
    }
    assert!(matches!(
        type_error("fn main() -> i32 { let a = [1, 2]; a[true] }"),
        TypeError::UnexpectedType(_, _)
    ));
}

#[test]
fn type_errors() {
    assert!(matches!(
        type_error("fn f() -> i32 { 0 } fn f() -> i32 { 1 } fn main() -> i32 { 0 }"),
        TypeError::Redeclaration(_, _, n) if n == "f"
    ));
    assert!(matches!(
        type_error("fn main() -> i32 { let x = 1; let x = 2; 0 }"),
        TypeError::RedeclarationVariable(n) if n == "x"
    ));
    assert!(matches!(
        type_error("fn main() -> i32 { let main = 1; 0 }"),
        TypeError::RedeclarationVariable(n) if n == "main"
    ));
    assert!(matches!(
        type_error("fn main() -> i32 { y }"),
        TypeError::VariableNotFound(n) if n == "y"
    ));
    assert!(matches!(
        type_error("fn main() -> i32 { let x = 1; x() }"),
        TypeError::ExpectedFunction(_)
    ));
    assert!(matches!(type_error("fn main() -> i32 { let a = []; 0 }"), TypeError::EmptyArray));
    assert!(matches!(type_error("fn main() -> i32 { 1 + true }"), TypeError::UnexpectedType(_, _)));
    assert!(matches!(type_error("fn main() -> i32 { true + true }"), TypeError::UnexpectedType(_, _)));
    assert!(matches!(type_error("fn main() -> i32 { let b = 1 == true; 0 }"), TypeError::UnexpectedType(_, _)));
    assert!(matches!(type_error("fn main() -> i32 { let b = 1 && true; 0 }"), TypeError::UnexpectedType(_, _)));
    assert!(matches!(type_error("fn main() -> i32 { let b = true && 1; 0 }"), TypeError::UnexpectedType(_, _)));
    assert!(matches!(type_error("fn main() -> i32 { if 1 { 2 } else { 3 } }"), TypeError::UnexpectedType(_, _)));
    assert!(matches!(type_error("fn main() -> i32 { if true { 2 } else { 'a' } }"), TypeError::UnexpectedType(_, _)));
    assert!(matches!(type_error("fn main() -> i32 { while 1 { 2 }; 0 }"), TypeError::UnexpectedType(_, _)));
    assert!(matches!(type_error("fn main() -> i32 { let x: bool = 1; 0 }"), TypeError::UnexpectedType(_, _)));
    assert!(matches!(type_error("fn main() -> i32 { [1, true]; 0 }"), TypeError::UnexpectedType(_, _)));
    assert!(matches!(type_error("fn main() -> i32 { !1; 0 }"), TypeError::UnexpectedType(_, _)));
    assert!(matches!(type_error("fn main() -> i32 { -true; 0 }"), TypeError::UnexpectedType(_, _)));
    assert!(matches!(type_error("fn main() -> i32 { true }"), TypeError::UnexpectedType(_, _)));
}

#[test]
fn arithmetic_and_comparison() {
    assert_eq!(exit_code("fn main() -> i32 { 1 + 2 * 3 }"), 7);
    assert_eq!(exit_code("fn main() -> i32 { 1 - 2 - 3 }"), -4);
    assert_eq!(exit_code("fn main() -> i32 { (1 + 2) * 3 }"), 9);
    assert_eq!(exit_code("fn main() -> i32 { 7 / 2 }"), 3);
    assert_eq!(exit_code("fn main() -> i32 { -7 / 2 }"), -3);
    assert_eq!(exit_code("fn main() -> i32 { if 1 < 2 && 2 <= 2 && 3 > 2 && 3 >= 3 { 1 } else { 0 } }"), 1);
    assert_eq!(exit_code("fn main() -> i32 { if 1 == 2 || 'a' != 'b' { 1 } else { 0 } }"), 1);
    assert_eq!(exit_code("fn main() -> i32 { if !(true == false) { 1 } else { 0 } }"), 1);
    assert_eq!(exit_code("fn main() -> i32 { 9223372036854775807 + 1 }"), i64::MIN);
    assert_eq!(exit_code("fn main() -> i32 { (0 - 9223372036854775807 - 1) / (0 - 1) }"), i64::MIN);
}

#[test]
fn division_by_zero_is_an_error() {
    assert!(matches!(run_error("fn main() -> i32 { 1 / 0 }"), RunError::DivisionByZero));
}

#[test]
fn loops_and_calls() {
    let src = "fn main() -> i32 { var i = 0; var s = 0; while i < 10 { s = s + i; i = i + 1 }; s }";
    assert_eq!(exit_code(src), 45);
    let src = "fn fact(n: i32) -> i32 { if n <= 1 { 1 } else { n * fact(n - 1) } } \
               fn main() -> i32 { fact(5) }";
    assert_eq!(exit_code(src), 120);
    let src = "fn even(n: i32) -> bool { if n == 0 { true } else { odd(n - 1) } } \
               fn odd(n: i32) -> bool { if n == 0 { false } else { even(n - 1) } } \
               fn main() -> i32 { if even(10) { 0 } else { 1 } }";
    assert_eq!(exit_code(src), 0);
}

#[test]
fn a_call_sees_no_variable_of_its_caller() {
    let src = "fn f() -> i32 { x } fn main() -> i32 { let x = 1; f() }";
    assert!(matches!(type_error(src), TypeError::VariableNotFound(n) if n == "x"));
    let src = "fn f() -> i32 { let x = 2; x } fn main() -> i32 { let x = 1; f() + x }";
    assert_eq!(exit_code(src), 3);
}

#[test]
fn functions_are_values() {
    let src = "fn one() -> i32 { 1 } fn main() -> i32 { let f = one; f() + one() }";
    assert_eq!(exit_code(src), 2);
}

#[test]
fn tuples_arrays_and_strings_are_values() {
    assert_eq!(exit_code("fn main() -> i32 { let t = (1, true); let a = [1, 2]; let s = \"hi\"; 0 }"), 0);
    assert_eq!(exit_code("fn main() -> i32 { let s: [char; 2] = \"hi\"; let e: [char; 0] = \"\"; 0 }"), 0);
    assert_eq!(exit_code("fn main() -> i32 { var x = 1; let t = (x, 2); let a: [i32; 2] = [x, 2]; 0 }"), 0);
}

#[test]
fn indexes_have_no_meaning_at_run_time() {
    assert!(matches!(
        run_error("fn main() -> i32 { (1, 2).0 }"),
        RunError::InvalidUnary(exprlang::ast::tree::Operator::TupleIndex(0), _)
    ));
    assert!(matches!(
        run_error("fn main() -> i32 { [1, 2][0] }"),
        RunError::InvalidBinary(exprlang::ast::tree::Operator::ArrayIndex, _, _)
    ));
}

#[test]
fn a_run_stops_at_its_limit() {
    assert!(matches!(
        run_str_within("fn main() -> i32 { while true { 1 }; 0 }", 1000),
        Err(Error::Interpreter(Traced { error: RunError::LimitExceeded, .. }))
    ));
    assert!(matches!(
        run_str_within("fn f() -> i32 { f() } fn main() -> i32 { f() }", 100),
        Err(Error::Interpreter(Traced { error: RunError::LimitExceeded, .. }))
    ));
    assert!(matches!(
        run_str_within("fn main() -> i32 { var i = 0; while i < 3 { i = i + 1 }; 0 }", 3),
        Ok(())
    ));
    assert!(matches!(
        run_str_within("fn main() -> i32 { var i = 0; while i < 3 { i = i + 1 }; 0 }", 2),
        Err(Error::Interpreter(Traced { error: RunError::LimitExceeded, .. }))
    ));
}

#[test]
fn a_source_that_does_not_parse_is_a_parse_error() {
    assert!(matches!(run_str("fn main() -> i32 { 1 +"), Err(Error::Parse(_))));
}

#[test]
fn a_conditional_without_else_has_the_unit_type() {
    assert!(matches!(type_error("fn main() -> i32 { if true { 1 } }"), TypeError::UnexpectedType(_, _)));
    assert_eq!(exit_code("fn main() -> i32 { if true { 1 }; 0 }"), 0);
}

#[test]
fn the_exit_status_is_the_value_of_main() {
    use_status("fn main() -> i32 { 0 }", 0);
    use_status("fn main() -> i32 { 7 }", 7);
    use_status("fn main() -> i32 { 255 }", 255);
    use_status("fn main() -> i32 { 256 }", 1);
    use_status("fn main() -> i32 { 263 }", 7);
    use_status("fn main() -> i32 { 0 - 1 }", 255);
    use_status("fn main() -> i32 { true }", 1);
    use_status("fn main() -> i32 { 1 / 0 }", 1);
    use_status("fn main() -> i32 {", 1);
}

fn use_status(src: &str, expected: u8) {
    assert_eq!(exprlang::exit_status(&run_str(src)), expected, "{}", src);
}
