use exprlang::ast::prettyprint::{apply_indent, escape_text, escaped_text, join_texts, number_to_text};
use exprlang::ast::tree::{Expr, Expression, Function, Operator, Program, Sequence, Value};
use exprlang::parser::parser::parse;
use exprlang::semantics::typeinfer::infer;
use exprlang::semantics::types::{Size, Type};

fn e(expr: Expr<()>) -> Expression<()> {
    Expression { expr, ty: () }
}

fn b(expr: Expr<()>) -> Box<Expression<()>> {
    Box::new(e(expr))
}

fn num(n: i64) -> Expr<()> {
    Expr::Value(Value::Number(n))
}

fn var(name: &str) -> Expr<()> {
    Expr::Reference(name.to_string())
}

fn i32_type() -> Type {
    Type::Signed(Size::ThirtyTwo)
}

#[test]
fn types_print_as_they_are_written() {
    assert_eq!(i32_type().to_text(), "i32");
    assert_eq!(Type::Bool.to_text(), "bool");
    assert_eq!(Type::Char.to_text(), "char");
    assert_eq!(Type::unit().to_text(), "()");
    assert_eq!(Type::Tuple(vec![i32_type()]).to_text(), "(i32)");
    assert_eq!(Type::Tuple(vec![i32_type(), Type::Bool]).to_text(), "(i32, bool)");
    assert_eq!(Type::Array(Box::new(Type::Char), 12).to_text(), "[char; 12]");
    assert_eq!(
        Type::Function { args: vec![i32_type(), Type::Char], ret: Box::new(Type::Bool) }.to_text(),
        "(i32, char) -> bool"
    );
    assert_eq!(Type::Reference(Box::new(Type::Bool)).to_text(), "&bool");
    assert_eq!(Type::Mutable(Box::new(i32_type())).to_text(), "mut i32");
}

#[test]
fn numbers_print_in_decimal() {
    assert_eq!(number_to_text(0), "0");
    assert_eq!(number_to_text(7), "7");
    assert_eq!(number_to_text(1234567890), "1234567890");
    assert_eq!(number_to_text(-5), "(-5)");
    assert_eq!(number_to_text(i64::MAX), "9223372036854775807");
    assert_eq!(number_to_text(i64::MIN), "(-9223372036854775808)");
}

#[test]
fn characters_are_escaped_inside_quotes() {
    assert_eq!(escape_text('a'), "a");
    assert_eq!(escape_text(' '), " ");
    assert_eq!(escape_text('~'), "~");
    assert_eq!(escape_text('\n'), "\\n");
    assert_eq!(escape_text('\t'), "\\t");
    assert_eq!(escape_text('\r'), "\\r");
    assert_eq!(escape_text('\''), "\\'");
    assert_eq!(escape_text('"'), "\\\"");
    assert_eq!(escape_text('\\'), "\\\\");
    assert_eq!(escape_text('\0'), "\\u{0}");
    assert_eq!(escape_text('\u{7f}'), "\\u{7f}");
    assert_eq!(escape_text('é'), "\\u{e9}");
    assert_eq!(escape_text('\u{1f600}'), "\\u{1f600}");
    for c in ['a', '\n', '\'', '"', '\0', 'é', '\u{10ffff}', '\u{1b}'] {
        assert_eq!(escape_text(c), c.escape_default().to_string());
    }
    assert_eq!(escaped_text("a\"b\n"), "a\\\"b\\n");
    assert_eq!(escaped_text(""), "");
}

#[test]
fn literals_print_as_they_are_written() {
    assert_eq!(Value::Number(12).to_text(), "12");
    assert_eq!(Value::Number(-12).to_text(), "(-12)");
    assert_eq!(Value::Bool(true).to_text(), "true");
    assert_eq!(Value::Bool(false).to_text(), "false");
    assert_eq!(Value::Char('x').to_text(), "'x'");
    assert_eq!(Value::Char('\'').to_text(), "'\\''");
    assert_eq!(Value::String("hi\n".to_string()).to_text(), "\"hi\\n\"");
}

#[test]
fn operators_print_as_they_are_written() {
    let all = [
        (Operator::Add, "+"),
        (Operator::Sub, "-"),
        (Operator::Mul, "*"),
        (Operator::Div, "/"),
        (Operator::Assign, "="),
        (Operator::Gt, ">"),
        (Operator::Lt, "<"),
        (Operator::Gte, ">="),
        (Operator::Lte, "<="),
        (Operator::Eq, "=="),
        (Operator::Neq, "!="),
        (Operator::And, "&&"),
        (Operator::Or, "||"),
        (Operator::Not, "!"),
        (Operator::Ref, "&"),
        (Operator::ArrayIndex, "[]"),
        (Operator::TupleIndex(3), ".3"),
    ];
    for (op, text) in all {
        assert_eq!(op.to_text(), text);
    }
}

#[test]
fn join_puts_the_separator_between() {
    assert_eq!(join_texts(&vec![], ", "), "");
    assert_eq!(join_texts(&vec!["a".to_string()], ", "), "a");
    assert_eq!(join_texts(&vec!["a".to_string(), "b".to_string(), "".to_string()], ", "), "a, b, ");
}

#[test]
fn indent_puts_two_spaces_before_each_line() {
    assert_eq!(apply_indent(""), "");
    assert_eq!(apply_indent("a"), "  a\n");
    assert_eq!(apply_indent("a\n"), "  a\n");
    assert_eq!(apply_indent("a\nb"), "  a\n  b\n");
    assert_eq!(apply_indent("a\n\nb"), "  a\n  \n  b\n");
    assert_eq!(apply_indent("\n"), "  \n");
    assert_eq!(apply_indent("a\r\nb\r"), "  a\n  b\r\n");
    for s in ["", "a", "a\n", "a\nb", "\n\n", "a\r\nb", "x\r\n", "a\rb\n"] {
        let mut expected = String::new();
        for line in s.lines() {
            expected.push_str("  ");
            expected.push_str(line);
            expected.push('\n');
        }
        assert_eq!(apply_indent(s), expected);
    }
}

#[test]
fn expressions_print_with_parentheses_around_operators() {
    let sum = Expr::Binary { lhs: b(num(1)), op: Operator::Add, rhs: b(var("x")) };
    assert_eq!(e(sum.duplicate()).to_text(), "(1 + x)");
    assert_eq!(e(Expr::Unary { op: Operator::Sub, rhs: b(sum.duplicate()) }).to_text(), "(-(1 + x))");
    assert_eq!(e(Expr::Unary { op: Operator::TupleIndex(2), rhs: b(var("t")) }).to_text(), "t.2");
    assert_eq!(
        e(Expr::Binary { lhs: b(var("a")), op: Operator::Assign, rhs: b(sum.duplicate()) }).to_text(),
        "a = (1 + x)"
    );
    assert_eq!(
        e(Expr::Binary { lhs: b(var("a")), op: Operator::ArrayIndex, rhs: b(num(0)) }).to_text(),
        "a[0]"
    );
    assert_eq!(e(Expr::Tuple(vec![])).to_text(), "()");
    assert_eq!(e(Expr::Tuple(vec![e(num(1))])).to_text(), "(1,)");
    assert_eq!(e(Expr::Tuple(vec![e(num(1)), e(num(2))])).to_text(), "(1, 2)");
    assert_eq!(e(Expr::Array(vec![])).to_text(), "[]");
    assert_eq!(e(Expr::Array(vec![e(num(1)), e(num(2))])).to_text(), "[1, 2]");
    assert_eq!(
        e(Expr::Call { func: b(var("f")), args: vec![e(num(1)), e(var("y"))] }).to_text(),
        "f(1, y)"
    );
    assert_eq!(
        e(Expr::Let { name: "x".to_string(), value: b(num(1)), ty: None, mutable: false }).to_text(),
        "let x = 1"
    );
    assert_eq!(
        e(Expr::Let { name: "x".to_string(), value: b(num(1)), ty: Some(i32_type()), mutable: true })
            .to_text(),
        "var x: i32 = 1"
    );
    assert_eq!(
        e(Expr::If {
            cond: b(var("c")),
            then_: Sequence(vec![e(num(1)), e(num(2))]),
            else_: Some(Sequence(vec![e(num(3))]))
        })
        .to_text(),
        "if c {\n  1;\n  2\n} else {\n  3\n}"
    );
    assert_eq!(
        e(Expr::If { cond: b(var("c")), then_: Sequence(vec![e(num(1))]), else_: None }).to_text(),
        "if c {\n  1\n}"
    );
    assert_eq!(
        e(Expr::While { cond: b(var("c")), body: Sequence(vec![e(num(1))]) }).to_text(),
        "while c {\n  1\n}"
    );
}

#[test]
fn functions_and_programs_print_with_an_empty_line_after_each() {
    let f = Function {
        name: "f".to_string(),
        args: vec![("a".to_string(), i32_type()), ("b".to_string(), Type::Bool)],
        ret: Type::unit(),
        body: Sequence(vec![e(Expr::If {
            cond: b(var("b")),
            then_: Sequence(vec![e(var("a"))]),
            else_: None,
        })]),
    };
    let text = "fn f(a: i32, b: bool) -> () {\n  if b {\n    a\n  }\n}\n\n";
    assert_eq!(f.to_text(), text);
    let twice = Program(vec![f.duplicate(), f]);
    assert_eq!(twice.to_text(), format!("{}{}", text, text));
    assert_eq!(Program::<()>(vec![]).to_text(), "");
}

fn settles(src: &str) {
    let first = parse(src).expect("the source parses");
    let once = parse(&first.to_text()).expect("the printed program parses");
    let twice = parse(&once.to_text()).expect("the program printed again parses");
    assert_eq!(once.to_text(), twice.to_text());
    assert_eq!(once, twice);
}

#[test]
fn printing_and_parsing_settles() {
    settles("fn main() -> i32 { 1 + 2 * 3 - 4 / 5 }");
    settles("fn main() -> i32 { var a = 1; a = a = 2; 0 }");
    settles("fn main() -> i32 { let t = (1, (2, 'x'), \"s\\n\\\"\"); let u = (1,); 0 }");
    settles("fn f(a: i32, g: (i32) -> bool) -> [char; 2] { if g(a) { \"ab\" } else { \"cd\" } } fn main() -> i32 { 0 }");
    settles("fn main() -> i32 { var i = 0; while i < 10 && !(i == 5) { i = i + 1; }; -i + 18446744073709551615 }");
    settles("fn main() -> i32 { let a = [1, 2, 3]; a[0].1(2)[3]; 0 }");
    settles("fn main() -> i32 { let x = if true { 1 } else { if false { 2 } else { 3 } }; x }");
}

#[test]
fn printing_a_checked_program_shows_its_types() {
    let typed = infer(parse("fn main() -> i32 { let x = 1; var y = true; 0 }").expect("parses"))
        .expect("checks");
    assert_eq!(
        typed.to_text(),
        "fn main() -> i32 {\n  let x: i32 = 1;\n  var y: mut bool = true;\n  0\n}\n\n"
    );
}

fn reads_back(src: &str) {
    let first = parse(src).expect("the source parses");
    let again = parse(&first.to_text()).expect("the printed program parses");
    assert_eq!(first, again);
    assert_eq!(first.to_text(), again.to_text());
}

#[test]
fn a_program_in_form_reads_back_as_itself() {
    reads_back("");
    reads_back("fn main() -> i32 { 0 }");
    reads_back("fn main() -> i32 { ((1 + 2) * (3 - x)) }");
    reads_back("fn main() -> i32 { var a = 1; a = a = (a + 1); (-a) }");
    reads_back("fn f(x: i32, p: (i32, bool), g: (i32) -> [char; 3]) -> () { () } fn main() -> i32 { 0 }");
    reads_back("fn main() -> i32 { let t = (1, (2,), 'x', \"a\\tb\\\\\", [true, false]); t.0; t.1.0; 0 }");
    reads_back("fn main() -> i32 { if (a < b) { g(1, 2)(3)[4].5 } else { while (!done) { step() }; 7 } }");
    reads_back("fn main() -> i32 { let y: i32 = if c { let z = (1 + let w = 2); z } else { 3 }; y }");
}

#[test]
fn a_program_out_of_form_settles_later_or_not_at_all() {
    let src = "fn main() -> i32 { var a = 1; var b = 2; var c = 3; var d = 4; ((a = b) == (c = d)) == true; 0 }";
    let first = parse(src).expect("the source parses");
    infer(parse(src).expect("the source parses")).expect("the program checks");
    let once = parse(&first.to_text()).expect("the printed program parses");
    let twice = parse(&once.to_text()).expect("the program printed again parses");
    assert_ne!(once.to_text(), twice.to_text());
    let thrice = parse(&twice.to_text()).expect("the program printed a third time parses");
    assert_eq!(twice, thrice);
}

#[test]
fn names_of_any_letters_read_back() {
    reads_back("fn main() -> i32 { let é = 1; let x² = é; let naïve_1 = x²; 0 }");
    reads_back("fn größe(länge: i32) -> i32 { länge } fn main() -> i32 { größe(0) }");
    assert!(parse("fn main() -> i32 { let Ⅷ = 1; 0 }").is_err());
}

#[test]
fn a_number_of_more_than_63_bits_does_not_read_back() {
    let first = parse("fn main() -> i32 { 9223372036854775808 }").expect("the source parses");
    assert_eq!(first.to_text(), "fn main() -> i32 {\n  (-9223372036854775808)\n}\n\n");
    let once = parse(&first.to_text()).expect("the printed program parses");
    assert_ne!(first, once);
    assert_eq!(once.to_text(), "fn main() -> i32 {\n  (-(-9223372036854775808))\n}\n\n");
    let twice = parse(&once.to_text()).expect("the program printed again parses");
    assert_ne!(once.to_text(), twice.to_text());
}

#[test]
fn a_group_around_an_assignment_is_not_written_back() {
    let first = parse("fn main() -> i32 { var a = 1; (a = 2) == (); 0 }").expect("the source parses");
    let once = parse(&first.to_text()).expect("the printed program parses");
    assert_ne!(first, once);
    let twice = parse(&once.to_text()).expect("the program printed again parses");
    assert_eq!(once, twice);
}
