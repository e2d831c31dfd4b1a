use exprlang::ast::tree::{Expr, Expression, Function, Operator, Sequence, Value as Literal};
use exprlang::interpreter::env::Env;
use exprlang::interpreter::error::Error as RunError;
use exprlang::interpreter::run::{run_program, run_program_within};
use exprlang::interpreter::value::Value;
use exprlang::parser::constants::{is_comment, is_delim, is_keyword, is_operator};
use exprlang::parser::error::Error as ParseError;
use exprlang::parser::parser::parse;
use exprlang::parser::scanner::{escape_char, width, Scanner};
use exprlang::parser::tokens::{Keyword, Literal as Quoted, Token, TokenType};
use exprlang::semantics::error::Error as TypeError;
use exprlang::semantics::typeinfer::infer;
use exprlang::table::Table;
use exprlang::semantics::types::{Size, Type};
use exprlang::parser::locate::locate;
use exprlang::text::{
    chars_of, format_decimal, is_letter, is_numeral, is_space, parse_decimal, string_of,
};

fn i32_type() -> Type {
    Type::Signed(Size::ThirtyTwo)
}

fn func(name: &str, args: Vec<(String, Type)>, ret: Type, result: i64) -> Function<()> {
    Function {
        name: name.to_string(),
        args,
        ret,
        body: Sequence(vec![Expression { expr: Expr::Value(Literal::Number(result)), ty: () }]),
    }
}

#[test]
fn the_unit_type_is_the_empty_tuple() {
    assert_eq!(Type::unit(), Type::Tuple(vec![]));
    assert_eq!(Type::integer(), i32_type());
}

#[test]
fn types_are_equal_by_structure() {
    let a = Type::Function { args: vec![i32_type(), Type::Bool], ret: Box::new(Type::Char) };
    let b = Type::Function { args: vec![i32_type(), Type::Bool], ret: Box::new(Type::Char) };
    let c = Type::Function { args: vec![i32_type()], ret: Box::new(Type::Char) };
    assert!(a.equals(&b));
    assert!(!a.equals(&c));
    assert!(a.clone().equals(&a));
    assert!(!Type::Array(Box::new(Type::Bool), 2).equals(&Type::Array(Box::new(Type::Bool), 3)));
    assert!(!Type::Mutable(Box::new(Type::Bool)).equals(&Type::Bool));
    assert!(Type::Mutable(Box::new(Type::Bool)).expect(&Type::Bool).is_ok());
    assert!(matches!(
        Type::Bool.expect(&Type::Char),
        Err(TypeError::UnexpectedType(Type::Bool, Type::Char))
    ));
    assert_eq!(Type::Mutable(Box::new(Type::Bool)).pop_mut(), &Type::Bool);
    assert_eq!(Type::Reference(Box::new(Type::Bool)).pop_ref(), &Type::Bool);
    assert_eq!(Type::Bool.pop_mut(), &Type::Bool);
    assert_eq!(Type::Mutable(Box::new(Type::Char)).map_mut(Type::Bool), Type::Mutable(Box::new(Type::Bool)));
    assert_eq!(Type::Mutable(Box::new(Type::Char)).map_mut(Type::unit()), Type::unit());
    assert_eq!(Type::Char.map_mut(Type::Bool), Type::Bool);
}

#[test]
fn operators_are_spelled_by_runs_of_operator_characters() {
    let all = [
        ("+", Operator::Add),
        ("-", Operator::Sub),
        ("*", Operator::Mul),
        ("/", Operator::Div),
        ("=", Operator::Assign),
        (">", Operator::Gt),
        ("<", Operator::Lt),
        ("<=", Operator::Lte),
        (">=", Operator::Gte),
        ("==", Operator::Eq),
        ("!=", Operator::Neq),
        ("&&", Operator::And),
        ("||", Operator::Or),
        ("!", Operator::Not),
    ];
    for (text, op) in all {
        let chars: Vec<char> = text.chars().collect();
        assert_eq!(Operator::from(&chars).expect("an operator"), op);
    }
    for text in ["", "&", "|", "=>", "->", "===", "+-"] {
        let chars: Vec<char> = text.chars().collect();
        assert!(matches!(Operator::from(&chars), Err(ParseError::InvalidOperator(s)) if s == text));
    }
}

#[test]
fn operators_have_a_precedence_and_an_associativity() {
    assert_eq!(Operator::Assign.prec(), 0);
    assert_eq!(Operator::And.prec(), 1);
    assert_eq!(Operator::Or.prec(), 1);
    for op in [Operator::Gt, Operator::Lt, Operator::Lte, Operator::Gte, Operator::Eq, Operator::Neq] {
        assert_eq!(op.prec(), 2);
        assert_eq!(op.assoc(), 1);
        assert!(op.is_comparison() && !op.is_arith() && !op.is_logical());
    }
    assert_eq!(Operator::Add.prec(), 3);
    assert_eq!(Operator::Sub.prec(), 3);
    assert_eq!(Operator::Mul.prec(), 4);
    assert_eq!(Operator::Div.prec(), 4);
    assert_eq!(Operator::Not.prec(), 5);
    assert_eq!(Operator::TupleIndex(1).prec(), 5);
    assert_eq!(Operator::ArrayIndex.prec(), 5);
    assert_eq!(Operator::Ref.prec(), 5);
    assert_eq!(Operator::Assign.assoc(), 0);
    assert_eq!(Operator::Add.assoc(), 1);
    assert_eq!(Operator::And.assoc(), 1);
    assert_eq!(Operator::Not.assoc(), 1);
    assert_eq!(Operator::TupleIndex(0).assoc(), 0);
    assert!(Operator::Add.is_arith() && Operator::Div.is_arith());
    assert!(Operator::And.is_logical() && Operator::Or.is_logical() && Operator::Not.is_logical());
    assert!(!Operator::Assign.is_arith() && !Operator::Assign.is_comparison() && !Operator::Assign.is_logical());
}

#[test]
fn operators_are_prefix_or_infix() {
    assert!(Operator::Not.expect_unary().is_ok());
    assert!(Operator::Sub.expect_unary().is_ok());
    assert!(Operator::TupleIndex(4).expect_unary().is_ok());
    assert!(matches!(Operator::Add.expect_unary(), Err(ParseError::InvalidOperator(s)) if s == "Add"));
    assert!(matches!(
        Operator::ArrayIndex.expect_unary(),
        Err(ParseError::InvalidOperator(s)) if s == "ArrayIndex"
    ));
    assert!(Operator::Add.expect_binary().is_ok());
    assert!(Operator::Assign.expect_binary().is_ok());
    assert!(Operator::Sub.expect_binary().is_ok());
    assert!(matches!(Operator::Not.expect_binary(), Err(ParseError::InvalidOperator(s)) if s == "Not"));
    assert!(matches!(
        Operator::TupleIndex(12).expect_binary(),
        Err(ParseError::InvalidOperator(s)) if s == "TupleIndex(12)"
    ));
    assert!(Operator::Add.is_binary() && !Operator::Add.is_unary());
    for op in [Operator::Add, Operator::Lte, Operator::Ref, Operator::TupleIndex(7)] {
        assert_eq!(op.name(), format!("{:?}", op));
    }
}

#[test]
fn character_classes() {
    assert!(is_comment('#'));
    assert!(!is_comment('/'));
    for c in ['+', '-', '*', '/', '=', '>', '<', '!', '&', '|'] {
        assert!(is_operator(c));
    }
    assert!(!is_operator('#') && !is_operator('a') && !is_operator('.'));
    for c in [';', ':', ',', '(', ')', '{', '}', '[', ']', '.'] {
        assert!(is_delim(c));
    }
    assert!(!is_delim('+') && !is_delim(' '));
    for w in ["let", "var", "if", "else", "true", "false", "fn", "while"] {
        assert!(is_keyword(w));
    }
    assert!(!is_keyword("lets") && !is_keyword("") && !is_keyword("If") && !is_keyword("main"));
    assert_eq!(Keyword::lookup(&['f', 'n']), Some(Keyword::Func));
    assert_eq!(Keyword::lookup(&['w', 'h', 'i', 'l', 'e']), Some(Keyword::While));
    assert_eq!(Keyword::lookup(&['f']), None);
}

#[test]
fn tokens_carry_names_and_numbers() {
    let name = TokenType::Name("x".to_string()).with_pos(3);
    assert_eq!(name.pos, 3);
    assert_eq!(name.name().expect("a name"), "x");
    assert!(matches!(
        name.number(),
        Err(ParseError::UnexpectedToken(d, Token { token: TokenType::Name(n), pos: 3 }))
            if d == "Number(_)" && n == "x"
    ));
    let number = TokenType::Number(42).with_pos(0);
    assert_eq!(number.number().expect("a number"), 42);
    assert!(matches!(
        number.name(),
        Err(ParseError::UnexpectedToken(d, Token { token: TokenType::Number(42), pos: 0 }))
            if d == "Name(_)"
    ));
    let copy = number.clone();
    assert_eq!(copy.token, TokenType::Number(42));
}

#[test]
fn the_scanner_stops_at_what_starts_no_token() {
    let mut scan = Scanner::new("a _b");
    assert_eq!(scan.next().expect("a token").token, TokenType::Name("a".to_string()));
    assert!(matches!(scan.peek(), Err(ParseError::UnrecognizedToken('_', 2))));
    assert!(matches!(scan.next(), Err(ParseError::UnrecognizedToken('_', 2))));
    assert!(matches!(scan.next(), Err(ParseError::UnrecognizedToken('_', 2))));
}

#[test]
fn the_scanner_reads_words_numbers_and_literals() {
    let mut scan = Scanner::new("while2 x_1 été 12 007 <=>= 'a' '\\t' \"b c\\\\\" .");
    let mut kinds = vec![];
    loop {
        let tok = scan.next().expect("a token");
        if tok.token == TokenType::Eof {
            break;
        }
        kinds.push(tok.token);
    }
    assert_eq!(
        kinds,
        vec![
            TokenType::Name("while2".to_string()),
            TokenType::Name("x_1".to_string()),
            TokenType::Name("été".to_string()),
            TokenType::Number(12),
            TokenType::Number(7),
            TokenType::Op(vec!['<', '=', '>', '=']),
            TokenType::Literal(Quoted::Char('a')),
            TokenType::Literal(Quoted::Char('\t')),
            TokenType::Literal(Quoted::String("b c\\".to_string())),
            TokenType::Delim('.'),
        ]
    );
}

#[test]
fn blanks_of_any_script_separate_tokens() {
    let mut scan = Scanner::new("a\u{a0}b\u{2003}\u{b}c");
    assert_eq!(scan.next().expect("a token").token, TokenType::Name("a".to_string()));
    assert_eq!(scan.next().expect("a token").token, TokenType::Name("b".to_string()));
    let c = scan.next().expect("a token");
    assert_eq!(c.token, TokenType::Name("c".to_string()));
    assert_eq!(c.pos, 8);
    let mut scan = Scanner::new("a\u{200b}b");
    assert_eq!(scan.next().expect("a token").token, TokenType::Name("a".to_string()));
    assert!(matches!(scan.next(), Err(ParseError::UnrecognizedToken('\u{200b}', 1))));
}

#[test]
fn peek_keeps_the_token() {
    let mut scan = Scanner::new("a b");
    assert_eq!(scan.peek().expect("a token").token, TokenType::Name("a".to_string()));
    assert_eq!(scan.peek().expect("a token").token, TokenType::Name("a".to_string()));
    assert_eq!(scan.next().expect("a token").token, TokenType::Name("a".to_string()));
    assert_eq!(scan.next().expect("a token").token, TokenType::Name("b".to_string()));
    assert_eq!(scan.peek().expect("a token").token, TokenType::Eof);
    assert_eq!(scan.next().expect("a token").token, TokenType::Eof);
}

#[test]
fn digits_of_another_script_are_no_number() {
    let mut scan = Scanner::new("١٢");
    assert!(matches!(scan.next(), Err(ParseError::ParseInt(s)) if s == "١٢"));
}

#[test]
fn escapes() {
    for (c, v) in [('n', '\n'), ('t', '\t'), ('r', '\r'), ('0', '\0'), ('\'', '\''), ('"', '"'), ('\\', '\\')] {
        assert_eq!(escape_char(c).expect("an escape"), v);
    }
    assert!(matches!(escape_char('x'), Err(ParseError::InvalidEscape('x'))));
}

#[test]
fn characters_take_one_to_four_bytes() {
    for c in ['a', '\u{7f}', '\u{80}', 'é', '\u{7ff}', '\u{800}', '€', '\u{ffff}', '\u{10000}', '\u{1f600}'] {
        assert_eq!(width(c), c.len_utf8());
    }
}

#[test]
fn strings_and_characters_convert() {
    assert_eq!(chars_of("aé€"), vec!['a', 'é', '€']);
    assert_eq!(chars_of(""), Vec::<char>::new());
    assert_eq!(string_of(&['h', 'é', 'y']), "héy");
    assert_eq!(string_of(&[]), "");
}

#[test]
fn decimal_numerals() {
    let digits = |s: &str| s.chars().collect::<Vec<char>>();
    assert_eq!(parse_decimal(&digits("0"), u64::MAX), Some(0));
    assert_eq!(parse_decimal(&digits("0042"), u64::MAX), Some(42));
    assert_eq!(parse_decimal(&digits("18446744073709551615"), u64::MAX), Some(u64::MAX));
    assert_eq!(parse_decimal(&digits("18446744073709551616"), u64::MAX), None);
    assert_eq!(parse_decimal(&digits("255"), 255), Some(255));
    assert_eq!(parse_decimal(&digits("256"), 255), None);
    assert_eq!(parse_decimal(&digits(""), 255), None);
    assert_eq!(parse_decimal(&digits("1a"), 255), None);
    assert_eq!(parse_decimal(&digits("+1"), 255), None);
    assert_eq!(format_decimal(0), "0");
    assert_eq!(format_decimal(10), "10");
    assert_eq!(format_decimal(u64::MAX), "18446744073709551615");
}

#[test]
fn values_have_the_type_of_their_tag() {
    let one: Value<()> = Value::Signed(1);
    assert_eq!(one.type_of(), i32_type());
    assert_eq!(Value::<()>::Bool(true).type_of(), Type::Bool);
    assert_eq!(Value::<()>::Char('c').type_of(), Type::Char);
    assert_eq!(Value::<()>::unit().type_of(), Type::unit());
    assert_eq!(
        Value::<()>::Tuple(vec![Value::Signed(1), Value::Bool(false)]).type_of(),
        Type::Tuple(vec![i32_type(), Type::Bool])
    );
    assert_eq!(
        Value::<()>::Array(vec![Value::Signed(1), Value::Signed(2)]).type_of(),
        Type::Array(Box::new(i32_type()), 2)
    );
    assert_eq!(Value::<()>::Array(vec![]).type_of(), Type::Array(Box::new(Type::Char), 0));
    let f = func("f", vec![("a".to_string(), Type::Bool)], Type::Char, 0);
    assert_eq!(
        Value::Function(f).type_of(),
        Type::Function { args: vec![Type::Bool], ret: Box::new(Type::Char) }
    );
}

#[test]
fn prefix_operators_on_values() {
    assert_eq!(Value::<()>::Bool(true).unary(&Operator::Not).expect("a value"), Value::Bool(false));
    assert_eq!(Value::<()>::Signed(5).unary(&Operator::Sub).expect("a value"), Value::Signed(-5));
    assert_eq!(Value::<()>::Signed(i64::MIN).unary(&Operator::Sub).expect("a value"), Value::Signed(i64::MIN));
    assert!(matches!(
        Value::<()>::Signed(5).unary(&Operator::Not),
        Err(RunError::InvalidUnary(Operator::Not, t)) if t == i32_type()
    ));
    assert!(matches!(
        Value::<()>::Bool(true).unary(&Operator::Sub),
        Err(RunError::InvalidUnary(Operator::Sub, Type::Bool))
    ));
    assert!(matches!(
        Value::<()>::Signed(5).unary(&Operator::Add),
        Err(RunError::InvalidUnary(Operator::Add, _))
    ));
}

#[test]
fn infix_operators_on_values() {
    let int = |n: i64| Value::<()>::Signed(n);
    let flag = |b: bool| Value::<()>::Bool(b);
    assert_eq!(int(6).binary(&Operator::Add, &int(3)).expect("a value"), int(9));
    assert_eq!(int(6).binary(&Operator::Sub, &int(3)).expect("a value"), int(3));
    assert_eq!(int(6).binary(&Operator::Mul, &int(3)).expect("a value"), int(18));
    assert_eq!(int(7).binary(&Operator::Div, &int(-2)).expect("a value"), int(-3));
    assert_eq!(int(i64::MAX).binary(&Operator::Mul, &int(2)).expect("a value"), int(-2));
    assert_eq!(int(i64::MIN).binary(&Operator::Sub, &int(1)).expect("a value"), int(i64::MAX));
    assert!(matches!(int(1).binary(&Operator::Div, &int(0)), Err(RunError::DivisionByZero)));
    assert_eq!(int(1).binary(&Operator::Lt, &int(2)).expect("a value"), flag(true));
    assert_eq!(int(1).binary(&Operator::Gte, &int(2)).expect("a value"), flag(false));
    assert_eq!(int(1).binary(&Operator::Neq, &int(2)).expect("a value"), flag(true));
    assert_eq!(flag(true).binary(&Operator::And, &flag(false)).expect("a value"), flag(false));
    assert_eq!(flag(true).binary(&Operator::Or, &flag(false)).expect("a value"), flag(true));
    assert_eq!(flag(true).binary(&Operator::Eq, &flag(true)).expect("a value"), flag(true));
    assert_eq!(
        Value::<()>::Char('a').binary(&Operator::Eq, &Value::Char('b')).expect("a value"),
        flag(false)
    );
    assert!(matches!(
        int(1).binary(&Operator::And, &int(2)),
        Err(RunError::InvalidBinary(Operator::And, _, _))
    ));
    assert!(matches!(
        flag(true).binary(&Operator::Lt, &flag(false)),
        Err(RunError::InvalidBinary(Operator::Lt, Type::Bool, Type::Bool))
    ));
    assert!(matches!(
        int(1).binary(&Operator::Add, &flag(false)),
        Err(RunError::InvalidBinary(Operator::Add, _, Type::Bool))
    ));
    assert!(matches!(
        Value::<()>::Char('a').binary(&Operator::Add, &Value::Char('b')),
        Err(RunError::InvalidBinary(Operator::Add, Type::Char, Type::Char))
    ));
}

#[test]
fn an_environment_binds_and_updates() {
    let mut env: Env<()> = Env::new();
    assert!(matches!(env.get(&"x".to_string()), Err(RunError::UndefinedVariable(n)) if n == "x"));
    env.insert("x", Value::Signed(1), false);
    env.insert("y", Value::Signed(2), true);
    assert_eq!(env.get(&"x".to_string()).expect("bound"), Value::Signed(1));
    assert!(matches!(
        env.update(&"x".to_string(), Value::Signed(5)),
        Err(RunError::ImmutableVariable(n)) if n == "x"
    ));
    assert!(matches!(
        env.update(&"x".to_string(), Value::Bool(true)),
        Err(RunError::UnexpectedType(a, Type::Bool)) if a == i32_type()
    ));
    assert!(matches!(
        env.update(&"z".to_string(), Value::Signed(5)),
        Err(RunError::UndefinedVariable(n)) if n == "z"
    ));
    assert_eq!(env.update(&"y".to_string(), Value::Signed(7)).expect("updated"), Value::Signed(7));
    assert_eq!(env.get(&"y".to_string()).expect("bound"), Value::Signed(7));
    assert_eq!(env.get(&"x".to_string()).expect("bound"), Value::Signed(1));
    env.insert("x", Value::Bool(true), true);
    assert_eq!(env.get(&"x".to_string()).expect("bound"), Value::Bool(true));
}

#[test]
fn a_call_frame_keeps_the_functions_and_drops_the_variables() {
    let f = func("f", vec![], i32_type(), 1);
    let g = func("f", vec![], i32_type(), 2);
    let mut env = Env::from_funcs(vec![f, g.duplicate()]);
    env.insert("x", Value::Signed(1), false);
    assert_eq!(env.get(&"f".to_string()).expect("bound"), Value::Function(g.duplicate()));
    let frame = env.call();
    assert_eq!(frame.get(&"f".to_string()).expect("bound"), Value::Function(g));
    assert!(matches!(frame.get(&"x".to_string()), Err(RunError::UndefinedVariable(n)) if n == "x"));
    env.insert("f", Value::Signed(3), false);
    assert_eq!(env.get(&"f".to_string()).expect("bound"), Value::Signed(3));
}

#[test]
fn running_a_program_without_types() {
    let prgm = parse("fn main() -> i32 { 3 }").expect("parses");
    assert!(matches!(run_program(prgm).map_err(|t| t.error), Err(RunError::NonZeroExitCode(3))));
    let prgm = parse("fn f() -> i32 { 3 }").expect("parses");
    assert!(matches!(run_program(prgm).map_err(|t| t.error), Err(RunError::MainNotFound)));
    let prgm = parse("fn main() -> bool { true }").expect("parses");
    assert!(matches!(
        run_program(prgm).map_err(|t| t.error),
        Err(RunError::UnexpectedType(a, Type::Bool)) if a == i32_type()
    ));
    let prgm = parse("fn main(a: i32) -> i32 { 0 }").expect("parses");
    assert!(matches!(
        run_program(prgm).map_err(|t| t.error),
        Err(RunError::ArgumentCountMismatch(0, params)) if params == vec![("a".to_string(), i32_type())]
    ));
    let prgm = parse("fn main() -> i32 { true }").expect("parses");
    assert!(matches!(
        run_program(prgm).map_err(|t| t.error),
        Err(RunError::UnexpectedType(a, Type::Bool)) if a == i32_type()
    ));
    let prgm = parse("fn main() -> i32 { 0 }").expect("parses");
    assert!(run_program_within(prgm, 0).is_ok());
}

#[test]
fn runtime_errors() {
    let run = |src: &str| run_program(parse(src).expect("parses")).map_err(|t| t.error);
    assert!(matches!(run("fn main() -> i32 { x }"), Err(RunError::UndefinedVariable(n)) if n == "x"));
    assert!(matches!(
        run("fn main() -> i32 { let x = 1; x = 2; 0 }"),
        Err(RunError::ImmutableVariable(n)) if n == "x"
    ));
    assert!(matches!(run("fn main() -> i32 { x = 2; 0 }"), Err(RunError::UndefinedVariable(n)) if n == "x"));
    assert!(matches!(
        run("fn main() -> i32 { (1 + 2) = 2; 0 }"),
        Err(RunError::InvalidAssignment(t)) if t == "(1 + 2)"
    ));
    assert!(matches!(
        run("fn main() -> i32 { var x = 1; x = true; 0 }"),
        Err(RunError::UnexpectedType(a, Type::Bool)) if a == i32_type()
    ));
    assert!(matches!(
        run("fn main() -> i32 { let x: bool = 1; 0 }"),
        Err(RunError::UnexpectedType(Type::Bool, b)) if b == i32_type()
    ));
    assert!(matches!(
        run("fn main() -> i32 { if 1 { 2 } else { 3 } }"),
        Err(RunError::UnexpectedType(Type::Bool, b)) if b == i32_type()
    ));
    assert!(matches!(
        run("fn main() -> i32 { while 1 { 2 }; 0 }"),
        Err(RunError::UnexpectedType(Type::Bool, b)) if b == i32_type()
    ));
    assert!(matches!(
        run("fn f(a: i32) -> i32 { a } fn main() -> i32 { f() }"),
        Err(RunError::UnexpectedType(Type::Function { args, .. }, Type::Function { .. })) if args.is_empty()
    ));
    assert!(matches!(
        run("fn main() -> i32 { let x = 1; x(2) }"),
        Err(RunError::UnexpectedType(Type::Function { args, .. }, b)) if args == vec![i32_type()] && b == i32_type()
    ));
    assert!(matches!(run("fn main() -> i32 { !1 }"), Err(RunError::InvalidUnary(Operator::Not, _))));
    assert!(matches!(run("fn main() -> i32 { 1 + true }"), Err(RunError::InvalidBinary(Operator::Add, _, _))));
}

#[test]
fn checking_gives_every_expression_its_type() {
    let typed = infer(parse("fn main() -> i32 { var x = 1; x = x + 2; x }").expect("parses")).expect("checks");
    let body = &typed.0[0].body.0;
    assert_eq!(body[0].ty, Type::unit());
    match &body[0].expr {
        Expr::Let { ty, value, .. } => {
            assert_eq!(ty, &Some(Type::Mutable(Box::new(i32_type()))));
            assert_eq!(value.ty, i32_type());
        }
        other => panic!("{:?}", other),
    }
    assert_eq!(body[1].ty, Type::unit());
    match &body[1].expr {
        Expr::Binary { lhs, rhs, .. } => {
            assert_eq!(lhs.ty, i32_type());
            assert_eq!(rhs.ty, i32_type());
        }
        other => panic!("{:?}", other),
    }
    assert_eq!(body[2].ty, Type::Mutable(Box::new(i32_type())));
}

#[test]
fn references_and_dereferences_are_checked() {
    let var = |name: &str| Expression { expr: Expr::Reference(name.to_string()), ty: () };
    let unary = |op: Operator, rhs: Expression<()>| Expression {
        expr: Expr::Unary { op, rhs: Box::new(rhs) },
        ty: (),
    };
    let zero = Expression { expr: Expr::Value(Literal::Number(0)), ty: () };
    let main = |body: Vec<Expression<()>>| {
        exprlang::ast::tree::Program(vec![Function {
            name: "main".to_string(),
            args: vec![],
            ret: i32_type(),
            body: Sequence(body),
        }])
    };
    let bind = |name: &str, value: Expression<()>| Expression {
        expr: Expr::Let { name: name.to_string(), value: Box::new(value), ty: None, mutable: false },
        ty: (),
    };
    let typed = infer(main(vec![
        bind("x", zero.duplicate()),
        bind("r", unary(Operator::Ref, var("x"))),
        unary(Operator::Mul, var("r")),
    ]))
    .expect("checks");
    let body = &typed.0[0].body.0;
    match &body[1].expr {
        Expr::Let { ty, .. } => assert_eq!(ty, &Some(Type::Reference(Box::new(i32_type())))),
        other => panic!("{:?}", other),
    }
    assert_eq!(body[2].ty, i32_type());
    assert!(matches!(
        infer(main(vec![bind("x", zero.duplicate()), unary(Operator::Mul, var("x")), zero.duplicate()]))
            .map_err(|t| t.error),
        Err(TypeError::InvalidDereference(t)) if t == i32_type()
    ));
    assert!(matches!(
        infer(main(vec![unary(Operator::Add, zero.duplicate()), zero.duplicate()])).map_err(|t| t.error),
        Err(TypeError::InvalidUnary(Operator::Add))
    ));
    let pair = Expression {
        expr: Expr::Binary {
            lhs: Box::new(zero.duplicate()),
            op: Operator::TupleIndex(0),
            rhs: Box::new(zero.duplicate()),
        },
        ty: (),
    };
    assert!(matches!(
        infer(main(vec![pair, zero])).map_err(|t| t.error),
        Err(TypeError::InvalidBinary(Operator::TupleIndex(0)))
    ));
}

#[test]
fn character_classes_agree_with_unicode() {
    for code in 0u32..=0x2fff {
        if let Some(c) = char::from_u32(code) {
            assert_eq!(is_letter(c), c.is_alphabetic(), "{:?}", c);
            assert_eq!(is_numeral(c), c.is_numeric(), "{:?}", c);
            assert_eq!(is_space(c), c.is_whitespace(), "{:?}", c);
            assert_eq!(is_letter(c) || is_numeral(c), c.is_alphanumeric(), "{:?}", c);
        }
    }
    assert!(is_letter('z') && is_letter('A') && is_letter('é') && is_letter('京'));
    assert!(!is_letter('_') && !is_letter('1') && !is_letter(' ') && !is_letter('💝'));
    assert!(is_numeral('0') && is_numeral('9') && is_numeral('٣') && is_numeral('¾'));
    assert!(!is_numeral('a') && !is_numeral('三'));
    assert!(is_space(' ') && is_space('\t') && is_space('\n') && is_space('\u{b}') && is_space('\u{c}'));
    assert!(is_space('\r') && is_space('\u{a0}') && is_space('\u{2003}'));
    assert!(!is_space('\u{8}') && !is_space('\u{e}') && !is_space('a') && !is_space('\u{200b}'));
}

#[test]
fn errors_point_into_the_source() {
    let src = "fn main() -> i32 {\n  let é = $;\n  0\n}";
    let err = parse(src).expect_err("does not parse");
    assert!(matches!(err, ParseError::UnrecognizedToken('$', 30)));
    assert_eq!(err.position(), Some(30));
    let place = locate(src, 30);
    assert_eq!(place.line, "  let é = $;");
    assert_eq!(place.column, 10);
    let first = locate(src, 0);
    assert_eq!(first.line, "fn main() -> i32 {");
    assert_eq!(first.column, 0);
    let end = locate(src, 1000);
    assert_eq!(end.line, "}");
    assert_eq!(end.column, 1);
    let at_feed = locate(src, 18);
    assert_eq!(at_feed.line, "fn main() -> i32 {");
    assert_eq!(at_feed.column, 18);
    assert_eq!(locate("", 0).line, "");
    assert_eq!(ParseError::InvalidEscape('q').position(), None);
    assert_eq!(ParseError::UnterminatedString(4).position(), Some(4));
}

#[test]
fn a_table_binds_names_to_values() {
    let mut table: Table<Type> = Table::new();
    assert!(!table.contains_key(&"x".to_string()));
    assert_eq!(table.get(&"x".to_string()), None);
    table.insert("x".to_string(), Type::Bool);
    table.insert("y".to_string(), Type::Char);
    assert!(table.contains_key(&"x".to_string()));
    assert_eq!(table.get(&"x".to_string()), Some(&Type::Bool));
    assert_eq!(table.get(&"y".to_string()), Some(&Type::Char));
    table.insert("x".to_string(), i32_type());
    assert_eq!(table.get(&"x".to_string()), Some(&i32_type()));
    assert_eq!(table.get(&"y".to_string()), Some(&Type::Char));
    assert!(!table.contains_key(&"z".to_string()));
}
