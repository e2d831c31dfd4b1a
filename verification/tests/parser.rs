use exprlang::ast::tree::{Expr, Expression, Function, Operator, Program, Sequence, Value};
use exprlang::semantics::types::{Size, Type};
use exprlang::parser::error::Error;
use exprlang::parser::parser::{parse, parse_func, parse_seq};
use exprlang::parser::scanner::Scanner;
use exprlang::parser::tokens::TokenType;

fn e(expr: Expr<()>) -> Expression<()> {
    Expression { expr, ty: () }
}

fn b(expr: Expr<()>) -> Box<Expression<()>> {
    Box::new(e(expr))
}

fn num(n: i64) -> Expr<()> {
    Expr::Value(Value::Number(n))
}

fn var(name: &str) -> Expr<()> {
    Expr::Reference(name.to_string())
}

fn bin(lhs: Expr<()>, op: Operator, rhs: Expr<()>) -> Expr<()> {
    Expr::Binary { lhs: b(lhs), op, rhs: b(rhs) }
}

fn body_of(src: &str) -> Vec<Expression<()>> {
    let text = format!("fn main() -> i32 {{ {} }}", src);
    let Program(mut funcs) = parse(&text).expect("the program parses");
    assert_eq!(funcs.len(), 1);
    let f = funcs.remove(0);
    assert_eq!(f.name, "main");
    assert!(f.args.is_empty());
    assert_eq!(f.ret, Type::Signed(Size::ThirtyTwo));
    f.body.0
}

fn one(src: &str) -> Expr<()> {
    let mut body = body_of(src);
    assert_eq!(body.len(), 1);
    body.remove(0).expr
}

#[test]
fn multiplication_binds_tighter_than_addition() {
    assert_eq!(
        one("1 + 2 * 3"),
        bin(num(1), Operator::Add, bin(num(2), Operator::Mul, num(3)))
    );
    assert_eq!(
        one("1 * 2 + 3"),
        bin(bin(num(1), Operator::Mul, num(2)), Operator::Add, num(3))
    );
}

#[test]
fn subtraction_groups_to_the_left() {
    assert_eq!(
        one("1 - 2 - 3"),
        bin(bin(num(1), Operator::Sub, num(2)), Operator::Sub, num(3))
    );
}

#[test]
fn assignment_groups_to_the_right() {
    assert_eq!(
        one("a = b = c"),
        bin(var("a"), Operator::Assign, bin(var("b"), Operator::Assign, var("c")))
    );
}

#[test]
fn assignment_binds_loosest() {
    assert_eq!(
        one("a = 1 + 2 == 3 && true"),
        bin(
            var("a"),
            Operator::Assign,
            bin(
                bin(bin(num(1), Operator::Add, num(2)), Operator::Eq, num(3)),
                Operator::And,
                Expr::Value(Value::Bool(true))
            )
        )
    );
}

#[test]
fn prefix_operators_bind_tightest() {
    assert_eq!(
        one("-1 + 2"),
        bin(Expr::Unary { op: Operator::Sub, rhs: b(num(1)) }, Operator::Add, num(2))
    );
    assert_eq!(
        one("!a && b"),
        bin(Expr::Unary { op: Operator::Not, rhs: b(var("a")) }, Operator::And, var("b"))
    );
}

#[test]
fn parentheses_group_and_make_tuples() {
    assert_eq!(
        one("(1 + 2) * 3"),
        bin(bin(num(1), Operator::Add, num(2)), Operator::Mul, num(3))
    );
    assert_eq!(one("()"), Expr::Tuple(vec![]));
    assert_eq!(one("(1)"), num(1));
    assert_eq!(one("(1,)"), Expr::Tuple(vec![e(num(1))]));
    assert_eq!(one("(1, 2)"), Expr::Tuple(vec![e(num(1)), e(num(2))]));
    assert_eq!(one("(1, 2,)"), Expr::Tuple(vec![e(num(1)), e(num(2))]));
}

#[test]
fn brackets_make_arrays() {
    assert_eq!(one("[]"), Expr::Array(vec![]));
    assert_eq!(one("[1, 2]"), Expr::Array(vec![e(num(1)), e(num(2))]));
    assert!(matches!(
        parse("fn main() -> i32 { [1, 2,] }"),
        Err(Error::UnexpectedToken(_, _))
    ));
}

#[test]
fn calls_chain() {
    let f_x = Expr::Call { func: b(var("f")), args: vec![e(var("x"))] };
    assert_eq!(one("f(x)"), f_x.clone_for_test());
    assert_eq!(one("f(x)(y, 1)"), Expr::Call { func: b(f_x), args: vec![e(var("y")), e(num(1))] });
    assert_eq!(one("f()"), Expr::Call { func: b(var("f")), args: vec![] });
}

trait CloneForTest {
    fn clone_for_test(&self) -> Self;
}

impl CloneForTest for Expr<()> {
    fn clone_for_test(&self) -> Self {
        self.duplicate()
    }
}

#[test]
fn indexes_follow_a_term() {
    let pair = Expr::Tuple(vec![e(num(1)), e(num(2))]);
    assert_eq!(one("(1,2).5"), Expr::Unary { op: Operator::TupleIndex(5), rhs: b(pair) });
    assert_eq!(one("a[i + 1]"), bin(var("a"), Operator::ArrayIndex, bin(var("i"), Operator::Add, num(1))));
    assert_eq!(
        one("-t.0"),
        Expr::Unary {
            op: Operator::Sub,
            rhs: b(Expr::Unary { op: Operator::TupleIndex(0), rhs: b(var("t")) })
        }
    );
}

#[test]
fn literals() {
    assert_eq!(one("'a'"), Expr::Value(Value::Char('a')));
    assert_eq!(one("'\\n'"), Expr::Value(Value::Char('\n')));
    assert_eq!(one("\"hi\\t\\\"x\\\"\""), Expr::Value(Value::String("hi\t\"x\"".to_string())));
    assert_eq!(one("true"), Expr::Value(Value::Bool(true)));
    assert_eq!(one("false"), Expr::Value(Value::Bool(false)));
    assert_eq!(one("18446744073709551615"), num(-1));
}

#[test]
fn bindings() {
    assert_eq!(
        one("let x = 5"),
        Expr::Let { name: "x".to_string(), value: b(num(5)), ty: None, mutable: false }
    );
    assert_eq!(
        one("var y: [bool; 3] = z"),
        Expr::Let {
            name: "y".to_string(),
            value: b(var("z")),
            ty: Some(Type::Array(Box::new(Type::Bool), 3)),
            mutable: true
        }
    );
    assert_eq!(
        one("let f: (i32, char) -> () = g"),
        Expr::Let {
            name: "f".to_string(),
            value: b(var("g")),
            ty: Some(Type::Function {
                args: vec![Type::Signed(Size::ThirtyTwo), Type::Char],
                ret: Box::new(Type::Tuple(vec![]))
            }),
            mutable: false
        }
    );
}

#[test]
fn conditionals_and_loops() {
    assert_eq!(
        one("if a { 1 } else { 2; 3 }"),
        Expr::If {
            cond: b(var("a")),
            then_: Sequence(vec![e(num(1))]),
            else_: Some(Sequence(vec![e(num(2)), e(num(3))]))
        }
    );
    assert_eq!(
        one("if a { 1; }"),
        Expr::If { cond: b(var("a")), then_: Sequence(vec![e(num(1))]), else_: None }
    );
    assert_eq!(
        one("while i < 3 { i = i + 1 }"),
        Expr::While {
            cond: b(bin(var("i"), Operator::Lt, num(3))),
            body: Sequence(vec![e(bin(
                var("i"),
                Operator::Assign,
                bin(var("i"), Operator::Add, num(1))
            ))])
        }
    );
}

#[test]
fn sequences_and_comments() {
    let body = body_of("let x = 1; # a comment\n x; ");
    assert_eq!(body.len(), 2);
    assert_eq!(body[1].expr, var("x"));
}

#[test]
fn functions_and_programs() {
    let Program(funcs) = parse("fn f(a: i32, b: bool,) { a } fn main() -> i32 { f(1, true) }")
        .expect("the program parses");
    assert_eq!(funcs.len(), 2);
    assert_eq!(funcs[0].name, "f");
    assert_eq!(
        funcs[0].args,
        vec![("a".to_string(), Type::Signed(Size::ThirtyTwo)), ("b".to_string(), Type::Bool)]
    );
    assert_eq!(funcs[0].ret, Type::unit());
    assert_eq!(funcs[1].name, "main");
    let Program(none) = parse("  # nothing here\n").expect("the empty program parses");
    assert!(none.is_empty());
}

#[test]
fn parse_func_and_parse_seq_read_from_a_scanner() {
    let mut scan = Scanner::new("fn id(x: char) -> char { x } 1; 2 }");
    let f: Function<()> = parse_func(&mut scan).expect("a function");
    assert_eq!(f.name, "id");
    assert_eq!(f.ret, Type::Char);
    let s = parse_seq(&mut scan).expect("a sequence");
    assert_eq!(s, Sequence(vec![e(num(1)), e(num(2))]));
    assert_eq!(scan.next().expect("a token").token, TokenType::Delim('}'));
    assert_eq!(scan.next().expect("a token").token, TokenType::Eof);
}

#[test]
fn syntax_errors() {
    assert!(matches!(parse("let"), Err(Error::UnexpectedToken(d, _)) if d == "Keyword(Func)"));
    assert!(matches!(parse("fn 1"), Err(Error::UnexpectedToken(d, _)) if d == "Name(_)"));
    assert!(matches!(parse("fn f { }"), Err(Error::UnexpectedToken(d, _)) if d == "Delim('(')"));
    assert!(matches!(parse("fn f() { }"), Err(Error::UnexpectedToken(d, _)) if d.is_empty()));
    assert!(matches!(parse("fn f() { else }"), Err(Error::UnexpectedToken(d, _)) if d.is_empty()));
    assert!(matches!(
        parse("fn f() { let x 5 }"),
        Err(Error::UnexpectedToken(d, _)) if d == "Op(x) if ['='] == x[..]"
    ));
    assert!(matches!(
        parse("fn f() { fn x = 5 }"),
        Err(Error::UnexpectedToken(d, _)) if d == "Key or Let"
    ));
    assert!(matches!(parse("fn f() { 1 +* 2 }"), Err(Error::InvalidOperator(s)) if s == "+*"));
    assert!(matches!(parse("fn f() { * 2 }"), Err(Error::InvalidOperator(s)) if s == "Mul"));
    assert!(matches!(parse("fn f() { 1 ! 2 }"), Err(Error::InvalidOperator(s)) if s == "Not"));
    assert!(matches!(parse("fn f() -> i64 { 1 }"), Err(Error::InvalidSize(64))));
    assert!(matches!(parse("fn f() -> i256 { 1 }"), Err(Error::ParseInt(s)) if s == "256"));
    assert!(matches!(parse("fn f() -> int { 1 }"), Err(Error::InvalidType(_))));
    assert!(matches!(parse("fn f() -> i32 -> i32 { 1 }"), Err(Error::InvalidType(_))));
    assert!(matches!(parse("fn f() -> [i32; x] { 1 }"), Err(Error::UnexpectedToken(d, _)) if d == "Number(_)"));
}

#[test]
fn lexical_errors() {
    assert!(matches!(parse("fn f() { 1 $ 2 }"), Err(Error::UnrecognizedToken('$', 11))));
    assert!(matches!(parse("fn f() { 'a }"), Err(Error::UnterminatedChar(9))));
    assert!(matches!(parse("fn f() { \"abc }"), Err(Error::UnterminatedString(9))));
    assert!(matches!(parse("fn f() { '\\q' }"), Err(Error::InvalidEscape('q'))));
    assert!(matches!(
        parse("fn f() { 18446744073709551616 }"),
        Err(Error::ParseInt(s)) if s == "18446744073709551616"
    ));
}

#[test]
fn positions_are_byte_offsets() {
    let mut scan = Scanner::new("\"é\" x");
    let lit = scan.next().expect("a token");
    assert_eq!(lit.pos, 0);
    let x = scan.next().expect("a token");
    assert_eq!(x.token, TokenType::Name("x".to_string()));
    assert_eq!(x.pos, 5);
    assert_eq!(scan.peek().expect("a token").token, TokenType::Eof);
    assert_eq!(scan.next().expect("a token").pos, 6);
}
