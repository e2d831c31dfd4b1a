//! The parser: recursive descent over the tokens of a scanner, with
//! precedence climbing for infix operators.

use vstd::prelude::*;
use crate::ast::tree::{
    exprs_model, functions_model, params_model, Expr, Expression, Function, Operator, Program,
    Sequence, SpecExpr, SpecExpression, SpecFunction, Value,
};
use crate::semantics::types::{Size, SpecType, Type, types_model};
use crate::parser::error::{Error, SpecError};
use crate::parser::grammar;
use crate::parser::grammar::left;
use crate::parser::scanner::{lemma_scan_token, Scanner};
use crate::parser::tokens::{Keyword, Literal, SpecTokenType, Token, TokenType};
use crate::text::{chars_of, parse_decimal, string_of};

verus! {

/// Whether the token is the delimiter `c`.
fn is_delim_token(tok: &Token, c: char) -> (r: bool)
    ensures
        r == (tok@.token == SpecTokenType::Delim(c)),
{
    match &tok.token {
        TokenType::Delim(d) => *d == c,
        _ => false,
    }
}

/// Whether the token is the operator spelled by the two characters `a`, `b`.
fn is_op2_token(tok: &Token, a: char, b: char) -> (r: bool)
    ensures
        r == (tok@.token == SpecTokenType::Op(seq![a, b])),
{
    match &tok.token {
        TokenType::Op(x) => {
            if x.len() == 2 && x[0] == a && x[1] == b {
                assert(x@ =~= seq![a, b]);
                true
            } else {
                assert(x@ != seq![a, b]) by {
                    if x@ == seq![a, b] {
                        assert(seq![a, b].len() == 2);
                        assert(seq![a, b][0] == a);
                        assert(seq![a, b][1] == b);
                    }
                }
                false
            }
        },
        _ => false,
    }
}

/// Whether the token is the operator spelled by the one character `a`.
fn is_op1_token(tok: &Token, a: char) -> (r: bool)
    ensures
        r == (tok@.token == SpecTokenType::Op(seq![a])),
{
    match &tok.token {
        TokenType::Op(x) => {
            if x.len() == 1 && x[0] == a {
                assert(x@ =~= seq![a]);
                true
            } else {
                assert(x@ != seq![a]) by {
                    if x@ == seq![a] {
                        assert(seq![a].len() == 1);
                        assert(seq![a][0] == a);
                    }
                }
                false
            }
        },
        _ => false,
    }
}

/// Whether the token is the keyword `k`.
fn is_keyword_token(tok: &Token, k: Keyword) -> (r: bool)
    ensures
        r == (tok@.token == SpecTokenType::Keyword(k)),
{
    match &tok.token {
        TokenType::Keyword(d) => *d == k,
        _ => false,
    }
}

/// Reads the delimiter `c`; any other token is unexpected.
fn expect_delim(scan: &mut Scanner, c: char) -> (r: Result<(), Error>)
    ensures
        final(scan)@.src == old(scan)@.src,
        0 <= old(scan)@.at <= old(scan)@.src.len(),
        match grammar::expect_delim(old(scan)@.src, old(scan)@.at, c) {
            Ok(end) => r is Ok && final(scan)@.at == end && old(scan)@.at < end <= old(
                scan,
            )@.src.len(),
            Err(e) => r matches Err(x) && x@ == e,
        },
{
    proof {
        lemma_scan_token(scan@.src, scan@.at);
    }
    let tok = scan.next()?;
    if is_delim_token(&tok, c) {
        Ok(())
    } else {
        let mut what = "Delim('".to_owned();
        what.push(c);
        what.append("')");
        assert(what@ =~= grammar::expected_delim(c));
        Err(Error::UnexpectedToken(what, tok))
    }
}

/// Reads a name; any other token is unexpected.
fn take_name(scan: &mut Scanner) -> (r: Result<String, Error>)
    ensures
        final(scan)@.src == old(scan)@.src,
        0 <= old(scan)@.at <= old(scan)@.src.len(),
        match grammar::take_name(old(scan)@.src, old(scan)@.at) {
            Ok((name, end)) => r matches Ok(n) && n@ == name && final(scan)@.at == end && old(
                scan,
            )@.at < end <= old(scan)@.src.len(),
            Err(e) => r matches Err(x) && x@ == e,
        },
{
    proof {
        lemma_scan_token(scan@.src, scan@.at);
    }
    let tok = scan.next()?;
    tok.name()
}

/// Reads a number; any other token is unexpected.
fn take_number(scan: &mut Scanner) -> (r: Result<u64, Error>)
    ensures
        final(scan)@.src == old(scan)@.src,
        0 <= old(scan)@.at <= old(scan)@.src.len(),
        match grammar::take_number(old(scan)@.src, old(scan)@.at) {
            Ok((n, end)) => r == Ok::<u64, Error>(n) && final(scan)@.at == end && old(scan)@.at
                < end <= old(scan)@.src.len(),
            Err(e) => r matches Err(x) && x@ == e,
        },
{
    proof {
        lemma_scan_token(scan@.src, scan@.at);
    }
    let tok = scan.next()?;
    tok.number()
}

impl Size {
    /// The integer width of `bits` bits; the language has 32 only.
    pub fn from_bits(bits: u8) -> (r: Result<Size, Error>)
        ensures
            match grammar::sized(bits) {
                Ok(s) => r == Ok::<Size, Error>(s),
                Err(e) => r matches Err(x) && x@ == e,
            },
    {
        if bits == 32 {
            Ok(Size::ThirtyTwo)
        } else {
            Err(Error::InvalidSize(bits))
        }
    }
}

/// Whether `s` spells the word of the four characters given.
fn is_word4(s: &Vec<char>, a: char, b: char, c: char, d: char) -> (r: bool)
    ensures
        r == (s@ == seq![a, b, c, d]),
{
    if s.len() == 4 && s[0] == a && s[1] == b && s[2] == c && s[3] == d {
        assert(s@ =~= seq![a, b, c, d]);
        true
    } else {
        assert(s@ != seq![a, b, c, d]) by {
            if s@ == seq![a, b, c, d] {
                assert(seq![a, b, c, d].len() == 4);
                assert(seq![a, b, c, d][0] == a);
                assert(seq![a, b, c, d][1] == b);
                assert(seq![a, b, c, d][2] == c);
                assert(seq![a, b, c, d][3] == d);
            }
        }
        false
    }
}

/// Whether every character of `s` after the first is an ASCII digit.
fn digits_after_first(s: &Vec<char>) -> (r: bool)
    requires
        s.len() > 0,
    ensures
        r == crate::text::all_digits(s@.drop_first()),
{
    let mut i: usize = 1;
    while i < s.len()
        invariant
            1 <= i <= s.len(),
            forall|j: int| 1 <= j < i ==> crate::text::is_digit(#[trigger] s@[j]),
        decreases s.len() - i,
    {
        if !('0' <= s[i] && s[i] <= '9') {
            assert(!crate::text::is_digit(s@.drop_first()[i - 1]));
            return false;
        }
        i += 1;
    }
    assert forall|j: int| 0 <= j < s@.drop_first().len() implies crate::text::is_digit(
        #[trigger] s@.drop_first()[j],
    ) by {
        assert(s@.drop_first()[j] == s@[j + 1]);
    }
    true
}

/// The type that the name carried by `tok` spells.
fn named_type(name: &String, tok: &Token) -> (r: Result<Type, Error>)
    ensures
        match grammar::named_type(name@, tok@) {
            Ok(t) => r matches Ok(x) && x@ == t,
            Err(e) => r matches Err(x) && x@ == e,
        },
{
    let chars = chars_of(name.as_str());
    if chars.len() > 1 && chars[0] == 'i' && digits_after_first(&chars) {
        let mut digits = chars;
        digits.remove(0);
        assert(digits@ =~= name@.drop_first());
        match parse_decimal(digits.as_slice(), 255) {
            Some(bits) => {
                let size = Size::from_bits(bits as u8)?;
                Ok(Type::Signed(size))
            },
            None => Err(Error::ParseInt(string_of(digits.as_slice()))),
        }
    } else if is_word4(&chars, 'b', 'o', 'o', 'l') {
        Ok(Type::Bool)
    } else if is_word4(&chars, 'c', 'h', 'a', 'r') {
        Ok(Type::Char)
    } else {
        Err(Error::InvalidType(tok.clone()))
    }
}

/// Reads the type that a `:` introduces, if one stands next.
fn parse_opt_type(scan: &mut Scanner) -> (r: Result<Option<Type>, Error>)
    ensures
        final(scan)@.src == old(scan)@.src,
        0 <= old(scan)@.at <= old(scan)@.src.len(),
        match grammar::opt_type(old(scan)@.src, old(scan)@.at) {
            Ok((ty, end)) => r matches Ok(t) && crate::ast::tree::opt_type_model(t) == ty
                && final(scan)@.at == end && old(scan)@.at <= end <= old(scan)@.src.len(),
            Err(e) => r matches Err(x) && x@ == e,
        },
{
    proof {
        lemma_scan_token(scan@.src, scan@.at);
    }
    let tok = scan.peek()?;
    if is_delim_token(&tok, ':') {
        scan.next()?;
        let ty = parse_type(scan)?;
        Ok(Some(ty))
    } else {
        Ok(None)
    }
}

/// Reads a type.
#[verifier::rlimit(50)]
fn parse_type(scan: &mut Scanner) -> (r: Result<Type, Error>)
    ensures
        final(scan)@.src == old(scan)@.src,
        0 <= old(scan)@.at <= old(scan)@.src.len(),
        match grammar::type_expr(old(scan)@.src, old(scan)@.at) {
            Ok((ty, end)) => r matches Ok(t) && t@ == ty && final(scan)@.at == end && old(
                scan,
            )@.at < end <= old(scan)@.src.len(),
            Err(e) => r matches Err(x) && x@ == e,
        },
    decreases left(old(scan)@.src, old(scan)@.at), 0int,
{
    let ghost src = scan@.src;
    let ghost at = scan@.at;
    reveal(grammar::type_expr);
    reveal(grammar::type_list);
    proof {
        lemma_scan_token(src, at);
    }
    let tok = scan.next()?;
    let ty = match &tok.token {
        TokenType::Name(x) => named_type(x, &tok)?,
        TokenType::Delim('(') => Type::Tuple(parse_type_list(scan)?),
        TokenType::Delim('[') => {
            let elem = parse_type(scan)?;
            expect_delim(scan, ';')?;
            let size = take_number(scan)?;
            expect_delim(scan, ']')?;
            Type::Array(Box::new(elem), #[verifier::truncate] (size as usize))
        },
        _ => {
            return Err(Error::InvalidType(tok));
        },
    };
    proof {
        lemma_scan_token(src, scan@.at);
    }
    let arrow = scan.peek()?;
    if is_op2_token(&arrow, '-', '>') {
        scan.next()?;
        let ret = parse_type(scan)?;
        match ty {
            Type::Tuple(args) => Ok(Type::Function { args, ret: Box::new(ret) }),
            _ => Err(Error::InvalidType(tok)),
        }
    } else {
        Ok(ty)
    }
}


/// Reads the types of a tuple type after its `(`, up to and with its `)`.
fn parse_type_list(scan: &mut Scanner) -> (r: Result<Vec<Type>, Error>)
    ensures
        final(scan)@.src == old(scan)@.src,
        0 <= old(scan)@.at <= old(scan)@.src.len(),
        match grammar::type_list(old(scan)@.src, old(scan)@.at, Seq::empty()) {
            Ok((tys, end)) => r matches Ok(t) && types_model(t) == tys && final(scan)@.at == end
                && old(scan)@.at < end <= old(scan)@.src.len(),
            Err(e) => r matches Err(x) && x@ == e,
        },
    decreases left(old(scan)@.src, old(scan)@.at), 1int,
{
    let ghost src = scan@.src;
    let ghost start = scan@.at;
    let mut types: Vec<Type> = Vec::new();
    assert(types_model(types) =~= Seq::empty());
    reveal(grammar::type_list);
    reveal(grammar::type_expr);
    scan.peek()?;
    loop
        invariant_except_break
            grammar::type_list(src, scan@.at, types_model(types)) == grammar::type_list(
                src,
                start,
                Seq::empty(),
            ),
        invariant
            scan@.src == src,
            old(scan)@.src == src,
            old(scan)@.at == start,
            0 <= start <= scan@.at <= src.len(),
        ensures
            start < scan@.at <= src.len(),
            grammar::type_list(src, start, Seq::empty()) == Ok::<(Seq<SpecType>, int), SpecError>(
                (types_model(types), scan@.at),
            ),
        decreases left(src, scan@.at),
    {
        let ghost here = scan@.at;
        reveal(grammar::type_list);
        reveal(grammar::type_expr);
        proof {
            lemma_scan_token(src, here);
        }
        let close = scan.peek()?;
        if is_delim_token(&close, ')') {
            scan.next()?;
            break ;
        }
        let item = parse_type(scan)?;
        let ghost old_types = types_model(types);
        types.push(item);
        assert(types_model(types) =~= old_types.push(item@));
        proof {
            lemma_scan_token(src, scan@.at);
        }
        let sep = scan.peek()?;
        if is_delim_token(&sep, ',') {
            scan.next()?;
        }
    }
    Ok(types)
}


/// An empty list of expressions.
fn no_exprs() -> (r: Vec<Expression<()>>)
    ensures
        exprs_model(r) == Seq::<SpecExpression>::empty(),
{
    let r: Vec<Expression<()>> = Vec::new();
    assert(exprs_model(r) =~= Seq::<SpecExpression>::empty());
    r
}

/// Adds an expression at the end of a list.
fn push_expr(v: &mut Vec<Expression<()>>, e: Expression<()>)
    ensures
        exprs_model(*final(v)) == exprs_model(*old(v)).push(e@),
{
    v.push(e);
    assert(exprs_model(*v) =~= exprs_model(*old(v)).push(e@));
}

/// The value that a quoted literal stands for.
fn literal_value(l: &Literal) -> (r: Value)
    ensures
        r@ == grammar::literal_value(l@),
{
    match l {
        Literal::String(s) => Value::String(s.clone()),
        Literal::Char(c) => Value::Char(*c),
    }
}

/// Reads an expression whose infix operators all have a precedence of at
/// least `min`.
#[verifier::rlimit(50)]
fn parse_expr(scan: &mut Scanner, min: u8) -> (r: Result<Expression<()>, Error>)
    ensures
        final(scan)@.src == old(scan)@.src,
        0 <= old(scan)@.at <= old(scan)@.src.len(),
        match grammar::expression(old(scan)@.src, old(scan)@.at, min) {
            Ok((e, end)) => r matches Ok(x) && x@ == e && final(scan)@.at == end && old(
                scan,
            )@.at < end <= old(scan)@.src.len(),
            Err(e) => r matches Err(x) && x@ == e,
        },
    decreases left(old(scan)@.src, old(scan)@.at), 0int,
{
    let ghost src = scan@.src;
    let ghost at = scan@.at;
    proof {
        lemma_scan_token(src, at);
    }
    let tok = scan.next()?;
    let primary: Expr<()> = match &tok.token {
        TokenType::Op(x) => {
            let op = Operator::from(x.as_slice())?;
            op.expect_unary()?;
            let rhs = parse_expr(scan, 5)?;
            Expr::Unary { op, rhs: Box::new(rhs) }
        },
        TokenType::Number(n) => Expr::Value(Value::from_number(*n)),
        TokenType::Literal(l) => Expr::Value(literal_value(l)),
        TokenType::Name(x) => Expr::Reference(x.clone()),
        TokenType::Keyword(key) => match key {
            Keyword::True => Expr::Value(Value::Bool(true)),
            Keyword::False => Expr::Value(Value::Bool(false)),
            Keyword::If => parse_conditional(scan)?,
            Keyword::Else => {
                return Err(Error::UnexpectedToken(String::new(), tok));
            },
            Keyword::While => parse_while(scan)?,
            _ => parse_binding(scan, *key, &tok)?,
        },
        TokenType::Delim('(') => parse_parenthesized(scan)?,
        TokenType::Delim('[') => parse_array(scan)?,
        _ => {
            return Err(Error::UnexpectedToken(String::new(), tok));
        },
    };
    let applied = parse_postfix(scan, primary)?;
    let joined = parse_binary(scan, applied, min)?;
    Ok(Expression::untyped(joined))
}

/// Reads a sequence in braces.
fn parse_block(scan: &mut Scanner) -> (r: Result<Sequence<()>, Error>)
    ensures
        final(scan)@.src == old(scan)@.src,
        0 <= old(scan)@.at <= old(scan)@.src.len(),
        match grammar::block(old(scan)@.src, old(scan)@.at) {
            Ok((e, end)) => r matches Ok(x) && x@ == e && final(scan)@.at == end && old(
                scan,
            )@.at < end <= old(scan)@.src.len(),
            Err(e) => r matches Err(x) && x@ == e,
        },
    decreases left(old(scan)@.src, old(scan)@.at), 2int,
{
    expect_delim(scan, '{')?;
    let body = parse_seq(scan)?;
    expect_delim(scan, '}')?;
    Ok(body)
}

/// Reads the rest of a conditional after its `if`.
fn parse_conditional(scan: &mut Scanner) -> (r: Result<Expr<()>, Error>)
    ensures
        final(scan)@.src == old(scan)@.src,
        0 <= old(scan)@.at <= old(scan)@.src.len(),
        match grammar::conditional(old(scan)@.src, old(scan)@.at) {
            Ok((e, end)) => r matches Ok(x) && x.model() == e && final(scan)@.at == end && old(
                scan,
            )@.at < end <= old(scan)@.src.len(),
            Err(e) => r matches Err(x) && x@ == e,
        },
    decreases left(old(scan)@.src, old(scan)@.at), 3int,
{
    let cond = parse_expr(scan, 0)?;
    let then_ = parse_block(scan)?;
    proof {
        lemma_scan_token(scan@.src, scan@.at);
    }
    let tok = scan.peek()?;
    let else_ = if is_keyword_token(&tok, Keyword::Else) {
        scan.next()?;
        Some(parse_block(scan)?)
    } else {
        None
    };
    Ok(Expr::If { cond: Box::new(cond), then_, else_ })
}

/// Reads the rest of a loop after its `while`.
fn parse_while(scan: &mut Scanner) -> (r: Result<Expr<()>, Error>)
    ensures
        final(scan)@.src == old(scan)@.src,
        0 <= old(scan)@.at <= old(scan)@.src.len(),
        match grammar::while_loop(old(scan)@.src, old(scan)@.at) {
            Ok((e, end)) => r matches Ok(x) && x.model() == e && final(scan)@.at == end && old(
                scan,
            )@.at < end <= old(scan)@.src.len(),
            Err(e) => r matches Err(x) && x@ == e,
        },
    decreases left(old(scan)@.src, old(scan)@.at), 3int,
{
    let cond = parse_expr(scan, 0)?;
    let body = parse_block(scan)?;
    Ok(Expr::While { cond: Box::new(cond), body })
}

/// Reads the rest of a binding after its keyword `key`, which was the token
/// `tok`.
fn parse_binding(scan: &mut Scanner, key: Keyword, tok: &Token) -> (r: Result<Expr<()>, Error>)
    ensures
        final(scan)@.src == old(scan)@.src,
        0 <= old(scan)@.at <= old(scan)@.src.len(),
        match grammar::binding(old(scan)@.src, old(scan)@.at, key, tok@) {
            Ok((e, end)) => r matches Ok(x) && x.model() == e && final(scan)@.at == end && old(
                scan,
            )@.at < end <= old(scan)@.src.len(),
            Err(e) => r matches Err(x) && x@ == e,
        },
    decreases left(old(scan)@.src, old(scan)@.at), 3int,
{
    let name = take_name(scan)?;
    let ty = parse_opt_type(scan)?;
    proof {
        lemma_scan_token(scan@.src, scan@.at);
    }
    let eq = scan.next()?;
    if !is_op1_token(&eq, '=') {
        return Err(Error::UnexpectedToken("Op(x) if ['='] == x[..]".to_owned(), eq));
    }
    let value = parse_expr(scan, 0)?;
    let mutable = match key {
        Keyword::Let => false,
        Keyword::Var => true,
        _ => {
            return Err(Error::UnexpectedToken("Key or Let".to_owned(), tok.clone()));
        },
    };
    Ok(Expr::Let { name, value: Box::new(value), ty, mutable })
}

/// Reads the rest of a group after its `(`.
fn parse_parenthesized(scan: &mut Scanner) -> (r: Result<Expr<()>, Error>)
    ensures
        final(scan)@.src == old(scan)@.src,
        0 <= old(scan)@.at <= old(scan)@.src.len(),
        match grammar::parenthesized(old(scan)@.src, old(scan)@.at) {
            Ok((e, end)) => r matches Ok(x) && x.model() == e && final(scan)@.at == end && old(
                scan,
            )@.at < end <= old(scan)@.src.len(),
            Err(e) => r matches Err(x) && x@ == e,
        },
    decreases left(old(scan)@.src, old(scan)@.at), 3int,
{
    proof {
        lemma_scan_token(scan@.src, scan@.at);
    }
    let close = scan.peek()?;
    if is_delim_token(&close, ')') {
        scan.next()?;
        return Ok(Expr::Tuple(no_exprs()));
    }
    let first = parse_expr(scan, 0)?;
    let sep = scan.peek()?;
    if is_delim_token(&sep, ',') {
        let items = parse_tuple_rest(scan, first)?;
        Ok(Expr::Tuple(items))
    } else {
        expect_delim(scan, ')')?;
        Ok(first.expr)
    }
}

/// Reads the items of a tuple that follow `first`, up to and with the `)`.
fn parse_tuple_rest(scan: &mut Scanner, first: Expression<()>) -> (r: Result<
    Vec<Expression<()>>,
    Error,
>)
    ensures
        final(scan)@.src == old(scan)@.src,
        0 <= old(scan)@.at <= old(scan)@.src.len(),
        match grammar::tuple_rest(old(scan)@.src, old(scan)@.at, seq![first@]) {
            Ok((e, end)) => r matches Ok(x) && exprs_model(x) == e && final(scan)@.at == end
                && old(scan)@.at < end <= old(scan)@.src.len(),
            Err(e) => r matches Err(x) && x@ == e,
        },
    decreases left(old(scan)@.src, old(scan)@.at), 0int,
{
    let ghost src = scan@.src;
    let ghost start = scan@.at;
    let ghost goal = grammar::tuple_rest(src, start, seq![first@]);
    let mut items = no_exprs();
    push_expr(&mut items, first);
    assert(exprs_model(items) =~= seq![first@]);
    scan.peek()?;
    loop
        invariant_except_break
            goal == grammar::tuple_rest(src, scan@.at, exprs_model(items)),
        invariant
            scan@.src == src,
            old(scan)@.src == src,
            old(scan)@.at == start,
            goal == grammar::tuple_rest(src, start, seq![first@]),
            0 <= start <= scan@.at <= src.len(),
        ensures
            start < scan@.at <= src.len(),
            goal == Ok::<(Seq<SpecExpression>, int), SpecError>((exprs_model(items), scan@.at)),
        decreases left(src, scan@.at),
    {
        proof {
            lemma_scan_token(src, scan@.at);
        }
        let sep = scan.peek()?;
        if !is_delim_token(&sep, ',') {
            expect_delim(scan, ')')?;
            break ;
        }
        scan.next()?;
        proof {
            lemma_scan_token(src, scan@.at);
        }
        let close = scan.peek()?;
        if is_delim_token(&close, ')') {
            scan.next()?;
            break ;
        }
        let item = parse_expr(scan, 0)?;
        push_expr(&mut items, item);
    }
    Ok(items)
}

/// Reads the rest of an array literal after its `[`.
fn parse_array(scan: &mut Scanner) -> (r: Result<Expr<()>, Error>)
    ensures
        final(scan)@.src == old(scan)@.src,
        0 <= old(scan)@.at <= old(scan)@.src.len(),
        match grammar::array(old(scan)@.src, old(scan)@.at) {
            Ok((e, end)) => r matches Ok(x) && x.model() == e && final(scan)@.at == end && old(
                scan,
            )@.at < end <= old(scan)@.src.len(),
            Err(e) => r matches Err(x) && x@ == e,
        },
    decreases left(old(scan)@.src, old(scan)@.at), 3int,
{
    proof {
        lemma_scan_token(scan@.src, scan@.at);
    }
    let close = scan.peek()?;
    if is_delim_token(&close, ']') {
        scan.next()?;
        return Ok(Expr::Array(no_exprs()));
    }
    let first = parse_expr(scan, 0)?;
    let items = parse_array_rest(scan, first)?;
    Ok(Expr::Array(items))
}

/// Reads the items of an array literal that follow `first`, up to and with
/// the `]`.
fn parse_array_rest(scan: &mut Scanner, first: Expression<()>) -> (r: Result<
    Vec<Expression<()>>,
    Error,
>)
    ensures
        final(scan)@.src == old(scan)@.src,
        0 <= old(scan)@.at <= old(scan)@.src.len(),
        match grammar::array_rest(old(scan)@.src, old(scan)@.at, seq![first@]) {
            Ok((e, end)) => r matches Ok(x) && exprs_model(x) == e && final(scan)@.at == end
                && old(scan)@.at < end <= old(scan)@.src.len(),
            Err(e) => r matches Err(x) && x@ == e,
        },
    decreases left(old(scan)@.src, old(scan)@.at), 0int,
{
    let ghost src = scan@.src;
    let ghost start = scan@.at;
    let ghost goal = grammar::array_rest(src, start, seq![first@]);
    let mut items = no_exprs();
    push_expr(&mut items, first);
    assert(exprs_model(items) =~= seq![first@]);
    scan.peek()?;
    loop
        invariant_except_break
            goal == grammar::array_rest(src, scan@.at, exprs_model(items)),
        invariant
            scan@.src == src,
            old(scan)@.src == src,
            old(scan)@.at == start,
            goal == grammar::array_rest(src, start, seq![first@]),
            0 <= start <= scan@.at <= src.len(),
        ensures
            start < scan@.at <= src.len(),
            goal == Ok::<(Seq<SpecExpression>, int), SpecError>((exprs_model(items), scan@.at)),
        decreases left(src, scan@.at),
    {
        proof {
            lemma_scan_token(src, scan@.at);
        }
        let sep = scan.peek()?;
        if !is_delim_token(&sep, ',') {
            expect_delim(scan, ']')?;
            break ;
        }
        scan.next()?;
        let item = parse_expr(scan, 0)?;
        push_expr(&mut items, item);
    }
    Ok(items)
}

/// Reads a sequence: expressions with `;` between them. A `;` may stand
/// before the `}` that ends the sequence.
pub fn parse_seq(scan: &mut Scanner) -> (r: Result<Sequence<()>, Error>)
    ensures
        final(scan)@.src == old(scan)@.src,
        0 <= old(scan)@.at <= old(scan)@.src.len(),
        match grammar::sequence(old(scan)@.src, old(scan)@.at) {
            Ok((e, end)) => r matches Ok(x) && x@ == e && final(scan)@.at == end && old(
                scan,
            )@.at < end <= old(scan)@.src.len(),
            Err(e) => r matches Err(x) && x@ == e,
        },
    decreases left(old(scan)@.src, old(scan)@.at), 1int,
{
    let ghost src = scan@.src;
    let ghost start = scan@.at;
    let ghost goal = grammar::sequence(src, start);
    let first = parse_expr(scan, 0)?;
    let mut exprs = no_exprs();
    push_expr(&mut exprs, first);
    assert(exprs_model(exprs) =~= seq![first@]);
    loop
        invariant_except_break
            goal == grammar::sequence_rest(src, scan@.at, exprs_model(exprs)),
        invariant
            scan@.src == src,
            old(scan)@.src == src,
            old(scan)@.at == start,
            goal == grammar::sequence(src, start),
            0 <= start < scan@.at <= src.len(),
        ensures
            start < scan@.at <= src.len(),
            goal == Ok::<(Seq<SpecExpression>, int), SpecError>((exprs_model(exprs), scan@.at)),
        decreases left(src, scan@.at),
    {
        proof {
            lemma_scan_token(src, scan@.at);
        }
        let sep = scan.peek()?;
        if !is_delim_token(&sep, ';') {
            break ;
        }
        scan.next()?;
        proof {
            lemma_scan_token(src, scan@.at);
        }
        let close = scan.peek()?;
        if is_delim_token(&close, '}') {
            break ;
        }
        let item = parse_expr(scan, 0)?;
        push_expr(&mut exprs, item);
    }
    Ok(Sequence(exprs))
}

/// Reads what follows a primary term: argument lists, indexes in brackets
/// and tuple indexes after a dot.
#[verifier::rlimit(50)]
fn parse_postfix(scan: &mut Scanner, primary: Expr<()>) -> (r: Result<Expr<()>, Error>)
    ensures
        final(scan)@.src == old(scan)@.src,
        0 <= old(scan)@.at <= old(scan)@.src.len(),
        match grammar::postfix(old(scan)@.src, old(scan)@.at, primary.model()) {
            Ok((e, end)) => r matches Ok(x) && x.model() == e && final(scan)@.at == end && old(
                scan,
            )@.at <= end <= old(scan)@.src.len(),
            Err(e) => r matches Err(x) && x@ == e,
        },
    decreases left(old(scan)@.src, old(scan)@.at), 0int,
{
    let ghost src = scan@.src;
    let ghost start = scan@.at;
    let ghost goal = grammar::postfix(src, start, primary.model());
    let mut expr = primary;
    scan.peek()?;
    loop
        invariant_except_break
            goal == grammar::postfix(src, scan@.at, expr.model()),
        invariant
            scan@.src == src,
            old(scan)@.src == src,
            old(scan)@.at == start,
            goal == grammar::postfix(src, start, primary.model()),
            0 <= start <= scan@.at <= src.len(),
        ensures
            start <= scan@.at <= src.len(),
            goal == Ok::<(SpecExpr, int), SpecError>((expr.model(), scan@.at)),
        decreases left(src, scan@.at),
    {
        proof {
            lemma_scan_token(src, scan@.at);
        }
        let tok = scan.peek()?;
        if is_delim_token(&tok, '(') {
            scan.next()?;
            let args = parse_arguments(scan)?;
            expr = Expr::Call { func: Box::new(Expression::untyped(expr)), args };
        } else if is_delim_token(&tok, '[') {
            scan.next()?;
            let index = parse_expr(scan, 0)?;
            expect_delim(scan, ']')?;
            expr =
            Expr::Binary {
                lhs: Box::new(Expression::untyped(expr)),
                op: Operator::ArrayIndex,
                rhs: Box::new(index),
            };
        } else if is_delim_token(&tok, '.') {
            scan.next()?;
            let n = take_number(scan)?;
            expr =
            Expr::Unary {
                op: Operator::TupleIndex(#[verifier::truncate] (n as usize)),
                rhs: Box::new(Expression::untyped(expr)),
            };
        } else {
            break ;
        }
    }
    Ok(expr)
}

/// Reads the arguments of a call after its `(`, up to and with the `)`.
fn parse_arguments(scan: &mut Scanner) -> (r: Result<Vec<Expression<()>>, Error>)
    ensures
        final(scan)@.src == old(scan)@.src,
        0 <= old(scan)@.at <= old(scan)@.src.len(),
        match grammar::arguments(old(scan)@.src, old(scan)@.at, Seq::empty()) {
            Ok((e, end)) => r matches Ok(x) && exprs_model(x) == e && final(scan)@.at == end
                && old(scan)@.at < end <= old(scan)@.src.len(),
            Err(e) => r matches Err(x) && x@ == e,
        },
    decreases left(old(scan)@.src, old(scan)@.at), 1int,
{
    let ghost src = scan@.src;
    let ghost start = scan@.at;
    let ghost goal = grammar::arguments(src, start, Seq::empty());
    let mut args = no_exprs();
    scan.peek()?;
    loop
        invariant_except_break
            goal == grammar::arguments(src, scan@.at, exprs_model(args)),
        invariant
            scan@.src == src,
            old(scan)@.src == src,
            old(scan)@.at == start,
            goal == grammar::arguments(src, start, Seq::empty()),
            0 <= start <= scan@.at <= src.len(),
        ensures
            start < scan@.at <= src.len(),
            goal == Ok::<(Seq<SpecExpression>, int), SpecError>((exprs_model(args), scan@.at)),
        decreases left(src, scan@.at), 1int,
    {
        proof {
            lemma_scan_token(src, scan@.at);
        }
        let close = scan.peek()?;
        if is_delim_token(&close, ')') {
            scan.next()?;
            break ;
        }
        let arg = parse_expr(scan, 0)?;
        push_expr(&mut args, arg);
        proof {
            lemma_scan_token(src, scan@.at);
        }
        let sep = scan.peek()?;
        if is_delim_token(&sep, ',') {
            scan.next()?;
        } else {
            expect_delim(scan, ')')?;
            break ;
        }
    }
    Ok(args)
}

/// Reads the infix operators of precedence at least `min` that follow
/// `first`, with their right operands.
#[verifier::rlimit(50)]
fn parse_binary(scan: &mut Scanner, first: Expr<()>, min: u8) -> (r: Result<Expr<()>, Error>)
    ensures
        final(scan)@.src == old(scan)@.src,
        0 <= old(scan)@.at <= old(scan)@.src.len(),
        match grammar::binary(old(scan)@.src, old(scan)@.at, first.model(), min) {
            Ok((e, end)) => r matches Ok(x) && x.model() == e && final(scan)@.at == end && old(
                scan,
            )@.at <= end <= old(scan)@.src.len(),
            Err(e) => r matches Err(x) && x@ == e,
        },
    decreases left(old(scan)@.src, old(scan)@.at), 0int,
{
    let ghost src = scan@.src;
    let ghost start = scan@.at;
    let ghost goal = grammar::binary(src, start, first.model(), min);
    let mut expr = first;
    scan.peek()?;
    loop
        invariant_except_break
            goal == grammar::binary(src, scan@.at, expr.model(), min),
        invariant
            scan@.src == src,
            old(scan)@.src == src,
            old(scan)@.at == start,
            goal == grammar::binary(src, start, first.model(), min),
            0 <= start <= scan@.at <= src.len(),
        ensures
            start <= scan@.at <= src.len(),
            goal == Ok::<(SpecExpr, int), SpecError>((expr.model(), scan@.at)),
        decreases left(src, scan@.at),
    {
        proof {
            lemma_scan_token(src, scan@.at);
        }
        let tok = scan.peek()?;
        let op = match &tok.token {
            TokenType::Op(x) => Operator::from(x.as_slice())?,
            _ => {
                break ;
            },
        };
        if op.prec() < min {
            break ;
        }
        op.expect_binary()?;
        scan.next()?;
        let rhs = parse_expr(scan, op.prec() + op.assoc())?;
        expr = Expr::Binary { lhs: Box::new(Expression::untyped(expr)), op, rhs: Box::new(rhs) };
    }
    Ok(expr)
}


/// Reads the parameters of a function after its `(`, up to and with the
/// `)`.
fn parse_params(scan: &mut Scanner) -> (r: Result<Vec<(String, Type)>, Error>)
    ensures
        final(scan)@.src == old(scan)@.src,
        0 <= old(scan)@.at <= old(scan)@.src.len(),
        match grammar::parameters(old(scan)@.src, old(scan)@.at, Seq::empty()) {
            Ok((e, end)) => r matches Ok(x) && params_model(x) == e && final(scan)@.at == end
                && old(scan)@.at < end <= old(scan)@.src.len(),
            Err(e) => r matches Err(x) && x@ == e,
        },
{
    let ghost src = scan@.src;
    let ghost start = scan@.at;
    let ghost goal = grammar::parameters(src, start, Seq::empty());
    let mut args: Vec<(String, Type)> = Vec::new();
    assert(params_model(args) =~= Seq::empty());
    scan.peek()?;
    loop
        invariant_except_break
            goal == grammar::parameters(src, scan@.at, params_model(args)),
        invariant
            scan@.src == src,
            old(scan)@.src == src,
            old(scan)@.at == start,
            goal == grammar::parameters(src, start, Seq::empty()),
            0 <= start <= scan@.at <= src.len(),
        ensures
            start < scan@.at <= src.len(),
            goal == Ok::<(Seq<(Seq<char>, SpecType)>, int), SpecError>(
                (params_model(args), scan@.at),
            ),
        decreases left(src, scan@.at),
    {
        proof {
            lemma_scan_token(src, scan@.at);
        }
        let close = scan.peek()?;
        if is_delim_token(&close, ')') {
            scan.next()?;
            break ;
        }
        let name = take_name(scan)?;
        expect_delim(scan, ':')?;
        let ty = parse_type(scan)?;
        let ghost before = params_model(args);
        args.push((name, ty));
        assert(params_model(args) =~= before.push((name@, ty@)));
        proof {
            lemma_scan_token(src, scan@.at);
        }
        let sep = scan.peek()?;
        if is_delim_token(&sep, ',') {
            scan.next()?;
        } else {
            expect_delim(scan, ')')?;
            break ;
        }
    }
    Ok(args)
}

/// Reads a function: `fn`, the name, the parameters, the return type if
/// any, and the body.
pub fn parse_func(scan: &mut Scanner) -> (r: Result<Function<()>, Error>)
    ensures
        final(scan)@.src == old(scan)@.src,
        0 <= old(scan)@.at <= old(scan)@.src.len(),
        match grammar::function(old(scan)@.src, old(scan)@.at) {
            Ok((f, end)) => r matches Ok(x) && x@ == f && final(scan)@.at == end && old(
                scan,
            )@.at < end <= old(scan)@.src.len(),
            Err(e) => r matches Err(x) && x@ == e,
        },
{
    proof {
        lemma_scan_token(scan@.src, scan@.at);
    }
    let first = scan.next()?;
    if !is_keyword_token(&first, Keyword::Func) {
        return Err(Error::UnexpectedToken("Keyword(Func)".to_owned(), first));
    }
    let name = take_name(scan)?;
    expect_delim(scan, '(')?;
    let args = parse_params(scan)?;
    proof {
        lemma_scan_token(scan@.src, scan@.at);
    }
    let arrow = scan.peek()?;
    let ret = if is_op2_token(&arrow, '-', '>') {
        scan.next()?;
        parse_type(scan)?
    } else {
        Type::unit()
    };
    let body = parse_block(scan)?;
    Ok(Function { name, args, ret, body })
}

/// Parses a program: functions up to the end of the source. The first
/// error met ends the parse.
pub fn parse(src: &str) -> (r: Result<Program<()>, Error>)
    ensures
        match grammar::program(src@) {
            Ok(p) => r matches Ok(x) && x@ == p,
            Err(e) => r matches Err(x) && x@ == e,
        },
{
    let mut scanner = Scanner::new(src);
    let scan = &mut scanner;
    let mut prgm: Vec<Function<()>> = Vec::new();
    assert(functions_model(prgm) =~= Seq::empty());
    loop
        invariant_except_break
            grammar::program(src@) == grammar::functions(src@, scan@.at, functions_model(prgm)),
        invariant
            scan@.src == src@,
            0 <= scan@.at <= src@.len(),
        ensures
            grammar::program(src@) == Ok::<Seq<SpecFunction>, SpecError>(functions_model(prgm)),
        decreases left(src@, scan@.at),
    {
        proof {
            lemma_scan_token(src@, scan@.at);
        }
        let tok = scan.peek()?;
        if matches!(tok.token, TokenType::Eof) {
            break ;
        }
        let f = parse_func(scan)?;
        let ghost before = functions_model(prgm);
        prgm.push(f);
        assert(functions_model(prgm) =~= before.push(f@));
    }
    Ok(Program(prgm))
}

} // verus!
