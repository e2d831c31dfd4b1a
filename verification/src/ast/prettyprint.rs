//! The concrete syntax of a tree: what a program looks like in source text.

use vstd::prelude::*;
use crate::ast::tree::{
    exprs_model, functions_model, params_model, Expr, Expression, Function, Operator, Program,
    Sequence, SpecExpr, SpecExpression, SpecFunction, SpecValue, TypeBound, Value,
};
use crate::semantics::types::{types_model, Size, SpecType, Type};
use crate::text::{chars_of, decimal_digits, format_decimal};

verus! {

/// The texts of `parts` with `sep` between each two.
pub open spec fn join(parts: Seq<Seq<char>>, sep: Seq<char>) -> Seq<char>
    decreases parts.len(),
{
    if parts.len() == 0 {
        Seq::empty()
    } else if parts.len() == 1 {
        parts[0]
    } else {
        join(parts.drop_last(), sep) + sep + parts.last()
    }
}

/// The hexadecimal digit that stands for `d`, in lower case.
pub open spec fn hex_digit(d: nat) -> char
    recommends
        d < 16,
{
    if d < 10 {
        ('0' as u32 + d as u32) as char
    } else {
        ('a' as u32 + (d - 10) as u32) as char
    }
}

/// The hexadecimal numeral of `n`, without leading zeros.
pub open spec fn hex_digits(n: nat) -> Seq<char>
    decreases n,
{
    if n < 16 {
        seq![hex_digit(n)]
    } else {
        hex_digits(n / 16).push(hex_digit(n % 16))
    }
}

/// How a character stands inside quotes: tab, carriage return, line feed,
/// the two quotes and the backslash after a backslash, the other printable
/// ASCII characters as they are, any other as `\u{..}` with its code in
/// hexadecimal.
pub open spec fn escape(c: char) -> Seq<char> {
    if c == '\t' {
        seq!['\\', 't']
    } else if c == '\r' {
        seq!['\\', 'r']
    } else if c == '\n' {
        seq!['\\', 'n']
    } else if c == '\'' {
        seq!['\\', '\'']
    } else if c == '"' {
        seq!['\\', '"']
    } else if c == '\\' {
        seq!['\\', '\\']
    } else if 0x20 <= c as u32 <= 0x7e {
        seq![c]
    } else {
        seq!['\\', 'u', '{'] + hex_digits(c as u32 as nat) + seq!['}']
    }
}

/// The characters of `s`, each as it stands inside quotes.
pub open spec fn escaped(s: Seq<char>) -> Seq<char>
    decreases s.len(),
{
    if s.len() == 0 {
        Seq::empty()
    } else {
        escaped(s.drop_last()) + escape(s.last())
    }
}

/// The text of a signed number: a negative one stands in parentheses.
pub open spec fn number_text(n: i64) -> Seq<char> {
    if n < 0 {
        seq!['(', '-'] + decimal_digits((-(n as int)) as nat) + seq![')']
    } else {
        decimal_digits(n as nat)
    }
}

/// The text of a literal.
pub open spec fn value_text(v: SpecValue) -> Seq<char> {
    match v {
        SpecValue::Number(n) => number_text(n),
        SpecValue::Bool(b) => if b {
            "true"@
        } else {
            "false"@
        },
        SpecValue::Char(c) => seq!['\''] + escape(c) + seq!['\''],
        SpecValue::String(s) => seq!['"'] + escaped(s) + seq!['"'],
    }
}

/// The text of an operator.
pub open spec fn operator_text(op: Operator) -> Seq<char> {
    match op {
        Operator::Add => "+"@,
        Operator::Sub => "-"@,
        Operator::Mul => "*"@,
        Operator::Div => "/"@,
        Operator::Assign => "="@,
        Operator::Gt => ">"@,
        Operator::Lt => "<"@,
        Operator::Gte => ">="@,
        Operator::Lte => "<="@,
        Operator::Eq => "=="@,
        Operator::Neq => "!="@,
        Operator::And => "&&"@,
        Operator::Or => "||"@,
        Operator::Not => "!"@,
        Operator::Ref => "&"@,
        Operator::ArrayIndex => "[]"@,
        Operator::TupleIndex(i) => "."@ + decimal_digits(i as nat),
    }
}

/// The texts of a list of types, in order.
pub open spec fn type_texts(ts: Seq<SpecType>) -> Seq<Seq<char>>
    decreases ts,
{
    Seq::new(
        ts.len(),
        |i: int|
            if 0 <= i < ts.len() {
                type_text(ts[i])
            } else {
                Seq::empty()
            },
    )
}

/// The text of a type.
pub open spec fn type_text(t: SpecType) -> Seq<char>
    decreases t,
{
    match t {
        SpecType::Signed(Size::ThirtyTwo) => "i32"@,
        SpecType::Bool => "bool"@,
        SpecType::Char => "char"@,
        SpecType::Tuple(ts) => "("@ + join(type_texts(ts), ", "@) + ")"@,
        SpecType::Array(item, n) => "["@ + type_text(*item) + "; "@ + decimal_digits(n as nat)
            + "]"@,
        SpecType::Function { args, ret } => "("@ + join(type_texts(args), ", "@) + ") -> "@
            + type_text(*ret),
        SpecType::Reference(inner) => "&"@ + type_text(*inner),
        SpecType::Mutable(inner) => "mut "@ + type_text(*inner),
    }
}

/// The index of the first line feed of `s` at or after `i`, or the length
/// of `s`.
pub open spec fn line_end(s: Seq<char>, i: int) -> int
    decreases s.len() - i,
{
    if 0 <= i < s.len() && s[i] != '\n' {
        line_end(s, i + 1)
    } else {
        i
    }
}

/// The line of `s` from index `i` up to `end`, where a line feed stands or
/// `s` ends: a carriage return before the line feed is no part of it.
pub open spec fn line(s: Seq<char>, i: int, end: int) -> Seq<char> {
    if i < end < s.len() && s[end - 1] == '\r' {
        s.subrange(i, end - 1)
    } else {
        s.subrange(i, end)
    }
}

/// The lines of `s` from index `i` on, each after two spaces and before a
/// line feed.
pub open spec fn indent_from(s: Seq<char>, i: int) -> Seq<char>
    decreases s.len() - i + 1,
{
    if !(0 <= i < s.len()) {
        Seq::empty()
    } else {
        proof {
            lemma_line_end(s, i);
        }
        seq![' ', ' '] + line(s, i, line_end(s, i)) + seq!['\n'] + indent_from(
            s,
            line_end(s, i) + 1,
        )
    }
}

/// A line ends within the text, not before where it starts.
pub proof fn lemma_line_end(s: Seq<char>, i: int)
    requires
        0 <= i <= s.len(),
    ensures
        i <= line_end(s, i) <= s.len(),
    decreases s.len() - i,
{
    if i < s.len() && s[i] != '\n' {
        lemma_line_end(s, i + 1);
    }
}

/// The lines of `s`, each after two spaces and before a line feed.
pub open spec fn indent(s: Seq<char>) -> Seq<char> {
    indent_from(s, 0)
}

/// The texts of a list of expressions, in order.
pub open spec fn expression_texts(items: Seq<SpecExpression>) -> Seq<Seq<char>>
    decreases items, 0int,
{
    Seq::new(
        items.len(),
        |i: int|
            if 0 <= i < items.len() {
                expression_text(items[i])
            } else {
                Seq::empty()
            },
    )
}

/// The text of a sequence: its expressions, with `;` and a line feed
/// between each two.
pub open spec fn sequence_text(items: Seq<SpecExpression>) -> Seq<char>
    decreases items, 1int,
{
    join(expression_texts(items), ";\n"@)
}

/// The text of an expression.
pub open spec fn expression_text(e: SpecExpression) -> Seq<char>
    decreases e, 0int,
{
    match e.expr {
        SpecExpr::Value(v) => value_text(v),
        SpecExpr::Reference(name) => name,
        SpecExpr::Unary { op, rhs } => match op {
            Operator::TupleIndex(i) => expression_text(*rhs) + "."@ + decimal_digits(i as nat),
            _ => "("@ + operator_text(op) + expression_text(*rhs) + ")"@,
        },
        SpecExpr::Binary { lhs, op, rhs } => match op {
            Operator::Assign => expression_text(*lhs) + " = "@ + expression_text(*rhs),
            Operator::ArrayIndex => expression_text(*lhs) + "["@ + expression_text(*rhs) + "]"@,
            _ => "("@ + expression_text(*lhs) + " "@ + operator_text(op) + " "@ + expression_text(
                *rhs,
            ) + ")"@,
        },
        SpecExpr::Tuple(items) => if items.len() == 1 {
            "("@ + expression_text(items[0]) + ",)"@
        } else {
            "("@ + join(expression_texts(items), ", "@) + ")"@
        },
        SpecExpr::Array(items) => "["@ + join(expression_texts(items), ", "@) + "]"@,
        SpecExpr::Let { name, value, ty, mutable } => {
            let word = if mutable {
                "var "@
            } else {
                "let "@
            };
            match ty {
                Some(t) => word + name + ": "@ + type_text(t) + " = "@ + expression_text(*value),
                None => word + name + " = "@ + expression_text(*value),
            }
        },
        SpecExpr::If { cond, then_, else_ } => match else_ {
            Some(other) => "if "@ + expression_text(*cond) + " {\n"@ + indent(
                sequence_text(then_),
            ) + "} else {\n"@ + indent(sequence_text(other)) + "}"@,
            None => "if "@ + expression_text(*cond) + " {\n"@ + indent(sequence_text(then_))
                + "}"@,
        },
        SpecExpr::Call { func, args } => expression_text(*func) + "("@ + join(
            expression_texts(args),
            ", "@,
        ) + ")"@,
        SpecExpr::While { cond, body } => "while "@ + expression_text(*cond) + " {\n"@ + indent(
            sequence_text(body),
        ) + "}"@,
    }
}

/// The texts of a list of parameters: each a name, `: ` and a type.
pub open spec fn param_texts(params: Seq<(Seq<char>, SpecType)>) -> Seq<Seq<char>> {
    Seq::new(params.len(), |i: int| params[i].0 + ": "@ + type_text(params[i].1))
}

/// The text of a function, with the empty line that follows it.
pub open spec fn function_text(f: SpecFunction) -> Seq<char> {
    "fn "@ + f.name + "("@ + join(param_texts(f.args), ", "@) + ") -> "@ + type_text(f.ret)
        + " {\n"@ + indent(sequence_text(f.body)) + "}\n\n"@
}

/// The text of a program: its functions, one after the other.
pub open spec fn program_text(funcs: Seq<SpecFunction>) -> Seq<char>
    decreases funcs.len(),
{
    if funcs.len() == 0 {
        Seq::empty()
    } else {
        program_text(funcs.drop_last()) + function_text(funcs.last())
    }
}


/// The views of a list of strings, in order.
pub open spec fn texts(parts: Vec<String>) -> Seq<Seq<char>> {
    Seq::new(parts@.len(), |i: int| parts@[i]@)
}

/// The texts of `parts` with `sep` between each two.
pub fn join_texts(parts: &Vec<String>, sep: &str) -> (r: String)
    ensures
        r@ == join(texts(*parts), sep@),
{
    let mut out = String::new();
    let ghost all = texts(*parts);
    let mut i: usize = 0;
    while i < parts.len()
        invariant
            0 <= i <= parts.len(),
            all == texts(*parts),
            out@ == join(all.take(i as int), sep@),
        decreases parts.len() - i,
    {
        proof {
            assert(all.take(i + 1).drop_last() =~= all.take(i as int));
            assert(all.take(i + 1).last() == parts@[i as int]@);
            if i == 0 {
                assert(all.take(1)[0] == parts@[0]@);
                assert(out@ =~= Seq::<char>::empty());
            }
        }
        if i > 0 {
            out.append(sep);
        }
        out.append(parts[i].as_str());
        proof {
            if i == 0 {
                assert(out@ =~= parts@[0]@);
            }
        }
        i += 1;
    }
    assert(all.take(parts.len() as int) =~= all);
    out
}

/// Appends the hexadecimal numeral of `n` to `s`.
fn push_hex(s: &mut String, n: u32)
    ensures
        final(s)@ == old(s)@ + hex_digits(n as nat),
    decreases n,
{
    if n >= 16 {
        push_hex(s, n / 16);
    }
    let d: u8 = (n % 16) as u8;
    let c: char = if d < 10 {
        (48u8 + d) as char
    } else {
        (87u8 + d) as char
    };
    s.push(c);
    assert(final(s)@ =~= old(s)@ + hex_digits(n as nat));
}

/// How a character stands inside quotes.
pub fn escape_text(c: char) -> (r: String)
    ensures
        r@ == escape(c),
{
    let mut out = String::new();
    if c == '\t' {
        out.push('\\');
        out.push('t');
        assert(out@ =~= seq!['\\', 't']);
    } else if c == '\r' {
        out.push('\\');
        out.push('r');
        assert(out@ =~= seq!['\\', 'r']);
    } else if c == '\n' {
        out.push('\\');
        out.push('n');
        assert(out@ =~= seq!['\\', 'n']);
    } else if c == '\'' {
        out.push('\\');
        out.push('\'');
        assert(out@ =~= seq!['\\', '\'']);
    } else if c == '"' {
        out.push('\\');
        out.push('"');
        assert(out@ =~= seq!['\\', '"']);
    } else if c == '\\' {
        out.push('\\');
        out.push('\\');
        assert(out@ =~= seq!['\\', '\\']);
    } else if 0x20 <= c as u32 && c as u32 <= 0x7e {
        out.push(c);
        assert(out@ =~= seq![c]);
    } else {
        out.push('\\');
        out.push('u');
        out.push('{');
        assert(out@ =~= seq!['\\', 'u', '{']);
        push_hex(&mut out, c as u32);
        out.push('}');
        assert(out@ =~= seq!['\\', 'u', '{'] + hex_digits(c as u32 as nat) + seq!['}']);
    }
    out
}

/// The characters of `s`, each as it stands inside quotes.
pub fn escaped_text(s: &str) -> (r: String)
    ensures
        r@ == escaped(s@),
{
    let chars = chars_of(s);
    let mut out = String::new();
    let mut i: usize = 0;
    while i < chars.len()
        invariant
            0 <= i <= chars.len(),
            out@ == escaped(chars@.take(i as int)),
        decreases chars.len() - i,
    {
        let piece = escape_text(chars[i]);
        out.append(piece.as_str());
        proof {
            assert(chars@.take(i + 1).drop_last() =~= chars@.take(i as int));
        }
        i += 1;
    }
    assert(chars@.take(chars.len() as int) =~= chars@);
    out
}

/// The text of a signed number.
pub fn number_to_text(n: i64) -> (r: String)
    ensures
        r@ == number_text(n),
{
    if n < 0 {
        let magnitude: u64 = if n == i64::MIN {
            9223372036854775808u64
        } else {
            (-n) as u64
        };
        let mut out = String::new();
        out.push('(');
        out.push('-');
        assert(out@ =~= seq!['(', '-']);
        out.append(format_decimal(magnitude).as_str());
        out.push(')');
        assert(out@ =~= seq!['(', '-'] + decimal_digits(magnitude as nat) + seq![')']);
        out
    } else {
        format_decimal(n as u64)
    }
}

impl Value {
    /// The text of the literal.
    pub fn to_text(&self) -> (r: String)
        ensures
            r@ == value_text(self@),
    {
        match self {
            Value::Number(n) => number_to_text(*n),
            Value::Bool(b) => if *b {
                "true".to_owned()
            } else {
                "false".to_owned()
            },
            Value::Char(c) => {
                let mut out = String::new();
                out.push('\'');
                assert(out@ =~= seq!['\'']);
                out.append(escape_text(*c).as_str());
                out.push('\'');
                assert(out@ =~= seq!['\''] + escape(*c) + seq!['\'']);
                out
            },
            Value::String(s) => {
                let mut out = String::new();
                out.push('"');
                assert(out@ =~= seq!['"']);
                out.append(escaped_text(s.as_str()).as_str());
                out.push('"');
                assert(out@ =~= seq!['"'] + escaped(s@) + seq!['"']);
                out
            },
        }
    }
}

impl Operator {
    /// The text of the operator.
    pub fn to_text(&self) -> (r: String)
        ensures
            r@ == operator_text(*self),
    {
        match self {
            Operator::Add => "+".to_owned(),
            Operator::Sub => "-".to_owned(),
            Operator::Mul => "*".to_owned(),
            Operator::Div => "/".to_owned(),
            Operator::Assign => "=".to_owned(),
            Operator::Gt => ">".to_owned(),
            Operator::Lt => "<".to_owned(),
            Operator::Gte => ">=".to_owned(),
            Operator::Lte => "<=".to_owned(),
            Operator::Eq => "==".to_owned(),
            Operator::Neq => "!=".to_owned(),
            Operator::And => "&&".to_owned(),
            Operator::Or => "||".to_owned(),
            Operator::Not => "!".to_owned(),
            Operator::Ref => "&".to_owned(),
            Operator::ArrayIndex => "[]".to_owned(),
            Operator::TupleIndex(i) => {
                let mut out = ".".to_owned();
                out.append(format_decimal(*i as u64).as_str());
                out
            },
        }
    }
}

/// The texts of a list of types, in order.
fn type_text_list(ts: &Vec<Type>) -> (r: Vec<String>)
    ensures
        texts(r) == type_texts(types_model(*ts)),
    decreases ts,
{
    let mut out: Vec<String> = Vec::new();
    let mut i: usize = 0;
    while i < ts.len()
        invariant
            0 <= i <= ts.len(),
            out.len() == i,
            forall|j: int| 0 <= j < i ==> out@[j]@ == type_text(ts@[j]@),
        decreases ts.len() - i,
    {
        out.push(ts[i].to_text());
        i += 1;
    }
    assert(texts(out) =~= type_texts(types_model(*ts)));
    out
}

impl Type {
    /// The text of the type.
    pub fn to_text(&self) -> (r: String)
        ensures
            r@ == type_text(self@),
        decreases self,
    {
        match self {
            Type::Signed(Size::ThirtyTwo) => "i32".to_owned(),
            Type::Bool => "bool".to_owned(),
            Type::Char => "char".to_owned(),
            Type::Tuple(ts) => {
                let mut out = "(".to_owned();
                out.append(join_texts(&type_text_list(ts), ", ").as_str());
                out.append(")");
                out
            },
            Type::Array(item, n) => {
                let mut out = "[".to_owned();
                out.append(item.to_text().as_str());
                out.append("; ");
                out.append(format_decimal(*n as u64).as_str());
                out.append("]");
                out
            },
            Type::Function { args, ret } => {
                let mut out = "(".to_owned();
                out.append(join_texts(&type_text_list(args), ", ").as_str());
                out.append(") -> ");
                out.append(ret.to_text().as_str());
                out
            },
            Type::Reference(inner) => {
                let mut out = "&".to_owned();
                out.append(inner.to_text().as_str());
                out
            },
            Type::Mutable(inner) => {
                let mut out = "mut ".to_owned();
                out.append(inner.to_text().as_str());
                out
            },
        }
    }
}

/// The lines of `s`, each after two spaces and before a line feed.
pub fn apply_indent(s: &str) -> (r: String)
    ensures
        r@ == indent(s@),
{
    let chars = chars_of(s);
    let mut out = String::new();
    let mut i: usize = 0;
    assert(out@ + indent_from(chars@, 0) =~= indent(s@));
    while i < chars.len()
        invariant
            0 <= i <= chars.len() + 1,
            chars@ == s@,
            out@ + indent_from(chars@, i as int) == indent(s@),
        decreases chars.len() + 1 - i,
    {
        let mut end: usize = i;
        while end < chars.len() && chars[end] != '\n'
            invariant
                i <= end <= chars.len(),
                line_end(chars@, end as int) == line_end(chars@, i as int),
            decreases chars.len() - end,
        {
            end += 1;
        }
        let stop: usize = if i < end && end < chars.len() && chars[end - 1] == '\r' {
            end - 1
        } else {
            end
        };
        let ghost before = out@;
        out.push(' ');
        out.push(' ');
        let mut j: usize = i;
        while j < stop
            invariant
                i <= j <= stop <= chars.len(),
                out@ == before + seq![' ', ' '] + chars@.subrange(i as int, j as int),
            decreases stop - j,
        {
            out.push(chars[j]);
            assert(chars@.subrange(i as int, j as int).push(chars@[j as int]) =~= chars@.subrange(
                i as int,
                j + 1,
            ));
            j += 1;
        }
        out.push('\n');
        proof {
            let text = line(chars@, i as int, end as int);
            assert(text == chars@.subrange(i as int, stop as int));
            assert(out@ =~= before + (seq![' ', ' '] + text + seq!['\n']));
            assert(indent_from(chars@, i as int) == seq![' ', ' '] + text + seq!['\n']
                + indent_from(chars@, end + 1));
            assert(out@ + indent_from(chars@, end + 1) =~= before + indent_from(
                chars@,
                i as int,
            ));
        }
        i = if end < chars.len() {
            end + 1
        } else {
            end
        };
    }
    assert(out@ + indent_from(chars@, i as int) =~= out@);
    out
}

/// The texts of a list of expressions, in order.
fn expression_text_list<T: TypeBound>(items: &Vec<Expression<T>>) -> (r: Vec<String>)
    ensures
        texts(r) == expression_texts(exprs_model(*items)),
    decreases items, 0int,
{
    let mut out: Vec<String> = Vec::new();
    let mut i: usize = 0;
    while i < items.len()
        invariant
            0 <= i <= items.len(),
            out.len() == i,
            forall|j: int| 0 <= j < i ==> out@[j]@ == expression_text(items@[j]@),
        decreases items.len() - i,
    {
        out.push(items[i].to_text());
        i += 1;
    }
    assert(texts(out) =~= expression_texts(exprs_model(*items)));
    out
}

/// The text of a list of expressions as a sequence, indented.
fn block_text<T: TypeBound>(items: &Vec<Expression<T>>) -> (r: String)
    ensures
        r@ == indent(sequence_text(exprs_model(*items))),
    decreases items, 1int,
{
    let body = join_texts(&expression_text_list(items), ";\n");
    apply_indent(body.as_str())
}

impl<T: TypeBound> Expression<T> {
    /// The text of the expression.
    pub fn to_text(&self) -> (r: String)
        ensures
            r@ == expression_text(self@),
        decreases self, 0int,
    {
        match &self.expr {
            Expr::Value(v) => v.to_text(),
            Expr::Reference(name) => name.clone(),
            Expr::Unary { op, rhs } => match op {
                Operator::TupleIndex(i) => {
                    let mut out = rhs.to_text();
                    out.append(".");
                    out.append(format_decimal(*i as u64).as_str());
                    out
                },
                _ => {
                    let mut out = "(".to_owned();
                    out.append(op.to_text().as_str());
                    out.append(rhs.to_text().as_str());
                    out.append(")");
                    out
                },
            },
            Expr::Binary { lhs, op, rhs } => match op {
                Operator::Assign => {
                    let mut out = lhs.to_text();
                    out.append(" = ");
                    out.append(rhs.to_text().as_str());
                    out
                },
                Operator::ArrayIndex => {
                    let mut out = lhs.to_text();
                    out.append("[");
                    out.append(rhs.to_text().as_str());
                    out.append("]");
                    out
                },
                _ => {
                    let mut out = "(".to_owned();
                    out.append(lhs.to_text().as_str());
                    out.append(" ");
                    out.append(op.to_text().as_str());
                    out.append(" ");
                    out.append(rhs.to_text().as_str());
                    out.append(")");
                    out
                },
            },
            Expr::Tuple(items) => {
                if items.len() == 1 {
                    assert(exprs_model(*items).len() == 1);
                    assert(exprs_model(*items)[0] == items@[0]@);
                    let mut out = "(".to_owned();
                    out.append(items[0].to_text().as_str());
                    out.append(",)");
                    out
                } else {
                    assert(exprs_model(*items).len() != 1);
                    let mut out = "(".to_owned();
                    out.append(join_texts(&expression_text_list(items), ", ").as_str());
                    out.append(")");
                    out
                }
            },
            Expr::Array(items) => {
                let mut out = "[".to_owned();
                out.append(join_texts(&expression_text_list(items), ", ").as_str());
                out.append("]");
                out
            },
            Expr::Let { name, value, ty, mutable } => {
                let mut out = if *mutable {
                    "var ".to_owned()
                } else {
                    "let ".to_owned()
                };
                out.append(name.as_str());
                match ty {
                    Some(t) => {
                        out.append(": ");
                        out.append(t.to_text().as_str());
                    },
                    None => {},
                }
                out.append(" = ");
                out.append(value.to_text().as_str());
                out
            },
            Expr::If { cond, then_, else_ } => {
                let mut out = "if ".to_owned();
                out.append(cond.to_text().as_str());
                out.append(" {\n");
                out.append(block_text(&then_.0).as_str());
                match else_ {
                    Some(other) => {
                        out.append("} else {\n");
                        out.append(block_text(&other.0).as_str());
                    },
                    None => {},
                }
                out.append("}");
                out
            },
            Expr::Call { func, args } => {
                let mut out = func.to_text();
                out.append("(");
                out.append(join_texts(&expression_text_list(args), ", ").as_str());
                out.append(")");
                out
            },
            Expr::While { cond, body } => {
                let mut out = "while ".to_owned();
                out.append(cond.to_text().as_str());
                out.append(" {\n");
                out.append(block_text(&body.0).as_str());
                out.append("}");
                out
            },
        }
    }
}

impl<T: TypeBound> Sequence<T> {
    /// The text of the sequence.
    pub fn to_text(&self) -> (r: String)
        ensures
            r@ == sequence_text(self@),
    {
        join_texts(&expression_text_list(&self.0), ";\n")
    }
}

impl<T: TypeBound> Function<T> {
    /// The text of the function, with the empty line that follows it.
    pub fn to_text(&self) -> (r: String)
        ensures
            r@ == function_text(self@),
    {
        let mut params: Vec<String> = Vec::new();
        let mut i: usize = 0;
        while i < self.args.len()
            invariant
                0 <= i <= self.args.len(),
                params.len() == i,
                forall|j: int|
                    0 <= j < i ==> params@[j]@ == self.args@[j].0@ + ": "@ + type_text(
                        self.args@[j].1@,
                    ),
            decreases self.args.len() - i,
        {
            let mut p = self.args[i].0.clone();
            p.append(": ");
            p.append(self.args[i].1.to_text().as_str());
            params.push(p);
            i += 1;
        }
        assert(texts(params) =~= param_texts(params_model(self.args)));
        let mut out = "fn ".to_owned();
        out.append(self.name.as_str());
        out.append("(");
        out.append(join_texts(&params, ", ").as_str());
        out.append(") -> ");
        out.append(self.ret.to_text().as_str());
        out.append(" {\n");
        out.append(block_text(&self.body.0).as_str());
        out.append("}\n\n");
        out
    }
}

impl<T: TypeBound> Program<T> {
    /// The text of the program.
    pub fn to_text(&self) -> (r: String)
        ensures
            r@ == program_text(self@),
    {
        let mut out = String::new();
        let ghost all = functions_model(self.0);
        let mut i: usize = 0;
        while i < self.0.len()
            invariant
                0 <= i <= self.0.len(),
                all == functions_model(self.0),
                out@ == program_text(all.take(i as int)),
            decreases self.0.len() - i,
        {
            proof {
                assert(all.take(i + 1).drop_last() =~= all.take(i as int));
                assert(all.take(i + 1).last() == self.0@[i as int]@);
            }
            out.append(self.0[i].to_text().as_str());
            i += 1;
        }
        assert(all.take(self.0.len() as int) =~= all);
        out
    }
}

} // verus!
