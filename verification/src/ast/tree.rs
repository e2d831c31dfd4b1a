//! The syntax tree: operators, literals, expressions, functions, programs.
//!
//! The tree is generic over what annotates each expression: nothing, before
//! type checking, or its type, after.

use vstd::prelude::*;
use crate::semantics::types::{SpecType, Type};
use crate::parser::error::{Error, SpecError};
use crate::text::{format_decimal, decimal_digits, string_of};

verus! {

/// An operator. `TupleIndex` carries the constant index that it selects.
#[derive(Debug, Clone, Copy, PartialEq, Eq, Structural)]
pub enum Operator {
    Add,
    Sub,
    Mul,
    Div,
    Assign,
    Gt,
    Lt,
    Lte,
    Gte,
    Eq,
    Neq,
    And,
    Or,
    Not,
    Ref,
    TupleIndex(usize),
    ArrayIndex,
}

/// The operator that a run of operator characters spells, if any.
pub open spec fn spec_operator(s: Seq<char>) -> Option<Operator> {
    if s.len() == 1 {
        if s[0] == '+' {
            Some(Operator::Add)
        } else if s[0] == '-' {
            Some(Operator::Sub)
        } else if s[0] == '*' {
            Some(Operator::Mul)
        } else if s[0] == '/' {
            Some(Operator::Div)
        } else if s[0] == '=' {
            Some(Operator::Assign)
        } else if s[0] == '>' {
            Some(Operator::Gt)
        } else if s[0] == '<' {
            Some(Operator::Lt)
        } else if s[0] == '!' {
            Some(Operator::Not)
        } else {
            None
        }
    } else if s.len() == 2 {
        if s[0] == '<' && s[1] == '=' {
            Some(Operator::Lte)
        } else if s[0] == '>' && s[1] == '=' {
            Some(Operator::Gte)
        } else if s[0] == '=' && s[1] == '=' {
            Some(Operator::Eq)
        } else if s[0] == '!' && s[1] == '=' {
            Some(Operator::Neq)
        } else if s[0] == '&' && s[1] == '&' {
            Some(Operator::And)
        } else if s[0] == '|' && s[1] == '|' {
            Some(Operator::Or)
        } else {
            None
        }
    } else {
        None
    }
}

impl Operator {
    /// Whether the operator takes two operands.
    pub open spec fn spec_is_binary(self) -> bool {
        !(self is Not || self is TupleIndex || self is Ref)
    }

    /// Whether the operator can take one operand.
    pub open spec fn spec_is_unary(self) -> bool {
        self is Not || self is Sub || self is TupleIndex
    }

    /// Whether the operator is one of `+ - * /`.
    pub open spec fn spec_is_arith(self) -> bool {
        self is Add || self is Sub || self is Mul || self is Div
    }

    /// Whether the operator compares its operands.
    pub open spec fn spec_is_comparison(self) -> bool {
        self is Gt || self is Lt || self is Lte || self is Gte || self is Eq || self is Neq
    }

    /// Whether the operator works on truth values.
    pub open spec fn spec_is_logical(self) -> bool {
        self is And || self is Or || self is Not
    }

    /// The precedence level: a higher level binds tighter. Prefix and
    /// postfix forms bind tightest, then `* /`, then `+ -`, then the
    /// comparisons, then `&& ||`; assignment binds loosest.
    pub open spec fn spec_prec(self) -> u8 {
        if self is Assign {
            0
        } else if self is And || self is Or {
            1
        } else if self.spec_is_comparison() {
            2
        } else if self is Add || self is Sub {
            3
        } else if self is Mul || self is Div {
            4
        } else {
            5
        }
    }

    /// The associativity bit: 1 for an operator that groups to the left, 0
    /// for one that groups to the right.
    pub open spec fn spec_assoc(self) -> u8 {
        if self.spec_is_arith() || self.spec_is_comparison() || self.spec_is_logical() {
            1
        } else {
            0
        }
    }

    /// The name of the operator, as diagnostics show it.
    pub open spec fn spec_name(self) -> Seq<char> {
        match self {
            Operator::Add => "Add"@,
            Operator::Sub => "Sub"@,
            Operator::Mul => "Mul"@,
            Operator::Div => "Div"@,
            Operator::Assign => "Assign"@,
            Operator::Gt => "Gt"@,
            Operator::Lt => "Lt"@,
            Operator::Lte => "Lte"@,
            Operator::Gte => "Gte"@,
            Operator::Eq => "Eq"@,
            Operator::Neq => "Neq"@,
            Operator::And => "And"@,
            Operator::Or => "Or"@,
            Operator::Not => "Not"@,
            Operator::Ref => "Ref"@,
            Operator::TupleIndex(i) => "TupleIndex("@ + decimal_digits(i as nat) + ")"@,
            Operator::ArrayIndex => "ArrayIndex"@,
        }
    }

    /// The operator that a run of operator characters spells; any other run
    /// is an invalid operator.
    pub fn from(op: &[char]) -> (r: Result<Operator, Error>)
        ensures
            match spec_operator(op@) {
                Some(o) => r == Ok::<Operator, Error>(o),
                None => r matches Err(e) && e@ == SpecError::InvalidOperator(op@),
            },
    {
        if op.len() == 1 {
            let c = op[0];
            if c == '+' {
                Ok(Operator::Add)
            } else if c == '-' {
                Ok(Operator::Sub)
            } else if c == '*' {
                Ok(Operator::Mul)
            } else if c == '/' {
                Ok(Operator::Div)
            } else if c == '=' {
                Ok(Operator::Assign)
            } else if c == '>' {
                Ok(Operator::Gt)
            } else if c == '<' {
                Ok(Operator::Lt)
            } else if c == '!' {
                Ok(Operator::Not)
            } else {
                Err(Error::InvalidOperator(string_of(op)))
            }
        } else if op.len() == 2 {
            let c = op[0];
            let d = op[1];
            if c == '<' && d == '=' {
                Ok(Operator::Lte)
            } else if c == '>' && d == '=' {
                Ok(Operator::Gte)
            } else if c == '=' && d == '=' {
                Ok(Operator::Eq)
            } else if c == '!' && d == '=' {
                Ok(Operator::Neq)
            } else if c == '&' && d == '&' {
                Ok(Operator::And)
            } else if c == '|' && d == '|' {
                Ok(Operator::Or)
            } else {
                Err(Error::InvalidOperator(string_of(op)))
            }
        } else {
            Err(Error::InvalidOperator(string_of(op)))
        }
    }

    /// The name of the operator, as diagnostics show it.
    pub fn name(&self) -> (r: String)
        ensures
            r@ == self.spec_name(),
    {
        match self {
            Operator::Add => "Add".to_owned(),
            Operator::Sub => "Sub".to_owned(),
            Operator::Mul => "Mul".to_owned(),
            Operator::Div => "Div".to_owned(),
            Operator::Assign => "Assign".to_owned(),
            Operator::Gt => "Gt".to_owned(),
            Operator::Lt => "Lt".to_owned(),
            Operator::Lte => "Lte".to_owned(),
            Operator::Gte => "Gte".to_owned(),
            Operator::Eq => "Eq".to_owned(),
            Operator::Neq => "Neq".to_owned(),
            Operator::And => "And".to_owned(),
            Operator::Or => "Or".to_owned(),
            Operator::Not => "Not".to_owned(),
            Operator::Ref => "Ref".to_owned(),
            Operator::TupleIndex(i) => {
                let mut s = "TupleIndex(".to_owned();
                let digits = format_decimal(*i as u64);
                s.append(digits.as_str());
                s.append(")");
                s
            },
            Operator::ArrayIndex => "ArrayIndex".to_owned(),
        }
    }

    /// Whether the operator takes two operands.
    pub fn is_binary(&self) -> (r: bool)
        ensures
            r == self.spec_is_binary(),
    {
        !matches!(self, Operator::Not | Operator::TupleIndex(_) | Operator::Ref)
    }

    /// Whether the operator can take one operand.
    pub fn is_unary(&self) -> (r: bool)
        ensures
            r == self.spec_is_unary(),
    {
        matches!(self, Operator::Not | Operator::Sub | Operator::TupleIndex(_))
    }

    /// Accepts an operator that takes two operands; any other is an invalid
    /// operator, reported by its name.
    pub fn expect_binary(&self) -> (r: Result<(), Error>)
        ensures
            self.spec_is_binary() ==> r is Ok,
            !self.spec_is_binary() ==> (r matches Err(e) && e@ == SpecError::InvalidOperator(
                self.spec_name(),
            )),
    {
        if self.is_binary() {
            Ok(())
        } else {
            Err(Error::InvalidOperator(self.name()))
        }
    }

    /// Accepts an operator that can take one operand; any other is an
    /// invalid operator, reported by its name.
    pub fn expect_unary(&self) -> (r: Result<(), Error>)
        ensures
            self.spec_is_unary() ==> r is Ok,
            !self.spec_is_unary() ==> (r matches Err(e) && e@ == SpecError::InvalidOperator(
                self.spec_name(),
            )),
    {
        if self.is_unary() {
            Ok(())
        } else {
            Err(Error::InvalidOperator(self.name()))
        }
    }

    /// The precedence level of the operator.
    pub fn prec(&self) -> (r: u8)
        ensures
            r == self.spec_prec(),
    {
        match self {
            Operator::Assign => 0,
            Operator::And | Operator::Or => 1,
            Operator::Gt | Operator::Lt | Operator::Lte | Operator::Gte | Operator::Eq
            | Operator::Neq => 2,
            Operator::Add | Operator::Sub => 3,
            Operator::Mul | Operator::Div => 4,
            _ => 5,
        }
    }

    /// The associativity bit of the operator.
    pub fn assoc(&self) -> (r: u8)
        ensures
            r == self.spec_assoc(),
    {
        if self.is_arith() || self.is_comparison() || self.is_logical() {
            1
        } else {
            0
        }
    }

    /// Whether the operator is one of `+ - * /`.
    pub fn is_arith(&self) -> (r: bool)
        ensures
            r == self.spec_is_arith(),
    {
        matches!(self, Operator::Add | Operator::Sub | Operator::Mul | Operator::Div)
    }

    /// Whether the operator compares its operands.
    pub fn is_comparison(&self) -> (r: bool)
        ensures
            r == self.spec_is_comparison(),
    {
        matches!(
            self,
            Operator::Gt | Operator::Lt | Operator::Lte | Operator::Gte | Operator::Eq
                | Operator::Neq
        )
    }

    /// Whether the operator works on truth values.
    pub fn is_logical(&self) -> (r: bool)
        ensures
            r == self.spec_is_logical(),
    {
        matches!(self, Operator::And | Operator::Or | Operator::Not)
    }
}


/// A literal value in the source.
#[derive(Debug, PartialEq)]
pub enum Value {
    Number(i64),
    Bool(bool),
    Char(char),
    String(String),
}

/// The model of a literal [`Value`].
pub ghost enum SpecValue {
    Number(i64),
    Bool(bool),
    Char(char),
    String(Seq<char>),
}

impl View for Value {
    type V = SpecValue;

    open spec fn view(&self) -> SpecValue {
        match self {
            Value::Number(n) => SpecValue::Number(*n),
            Value::Bool(b) => SpecValue::Bool(*b),
            Value::Char(c) => SpecValue::Char(*c),
            Value::String(s) => SpecValue::String(s@),
        }
    }
}

impl Clone for Value {
    fn clone(&self) -> (r: Value)
        ensures
            r@ == self@,
    {
        match self {
            Value::Number(n) => Value::Number(*n),
            Value::Bool(b) => Value::Bool(*b),
            Value::Char(c) => Value::Char(*c),
            Value::String(s) => Value::String(s.clone()),
        }
    }
}

/// What can annotate an expression: nothing, or its type.
pub trait TypeBound: Sized {
    /// The type that the annotation holds, if it holds one.
    spec fn annotation(&self) -> Option<SpecType>;

    /// A copy of the annotation.
    fn copy_annotation(&self) -> (r: Self)
        ensures
            r.annotation() == self.annotation(),
    ;
}

impl TypeBound for () {
    open spec fn annotation(&self) -> Option<SpecType> {
        None
    }

    fn copy_annotation(&self) -> (r: ()) {
        ()
    }
}

impl TypeBound for Type {
    open spec fn annotation(&self) -> Option<SpecType> {
        Some(self@)
    }

    fn copy_annotation(&self) -> (r: Type) {
        self.duplicate()
    }
}

/// An expression and its annotation.
#[derive(Debug, PartialEq)]
pub struct Expression<T: TypeBound> {
    pub expr: Expr<T>,
    pub ty: T,
}

/// The forms of expression.
#[derive(Debug, PartialEq)]
pub enum Expr<T: TypeBound> {
    Unary { op: Operator, rhs: Box<Expression<T>> },
    Binary { lhs: Box<Expression<T>>, op: Operator, rhs: Box<Expression<T>> },
    Value(Value),
    Tuple(Vec<Expression<T>>),
    Array(Vec<Expression<T>>),
    Reference(String),
    Let { name: String, value: Box<Expression<T>>, ty: Option<Type>, mutable: bool },
    If { cond: Box<Expression<T>>, then_: Sequence<T>, else_: Option<Sequence<T>> },
    Call { func: Box<Expression<T>>, args: Vec<Expression<T>> },
    While { cond: Box<Expression<T>>, body: Sequence<T> },
}

/// A non-empty list of expressions, evaluated in order; its value is that of
/// the last one.
#[derive(Debug, PartialEq)]
pub struct Sequence<T: TypeBound>(pub Vec<Expression<T>>);

/// A function declaration.
#[derive(Debug, PartialEq)]
pub struct Function<T: TypeBound> {
    pub name: String,
    pub args: Vec<(String, Type)>,
    pub ret: Type,
    pub body: Sequence<T>,
}

/// A program: its functions, in source order.
#[derive(Debug, PartialEq)]
pub struct Program<T: TypeBound>(pub Vec<Function<T>>);

/// The model of an [`Expression`]: `ty` is `None` where the tree carries no
/// types.
pub ghost struct SpecExpression {
    pub expr: SpecExpr,
    pub ty: Option<SpecType>,
}

/// The model of an [`Expr`].
pub ghost enum SpecExpr {
    Unary { op: Operator, rhs: Box<SpecExpression> },
    Binary { lhs: Box<SpecExpression>, op: Operator, rhs: Box<SpecExpression> },
    Value(SpecValue),
    Tuple(Seq<SpecExpression>),
    Array(Seq<SpecExpression>),
    Reference(Seq<char>),
    Let { name: Seq<char>, value: Box<SpecExpression>, ty: Option<SpecType>, mutable: bool },
    If { cond: Box<SpecExpression>, then_: Seq<SpecExpression>, else_: Option<Seq<SpecExpression>> },
    Call { func: Box<SpecExpression>, args: Seq<SpecExpression> },
    While { cond: Box<SpecExpression>, body: Seq<SpecExpression> },
}

/// The model of a [`Function`].
pub ghost struct SpecFunction {
    pub name: Seq<char>,
    pub args: Seq<(Seq<char>, SpecType)>,
    pub ret: SpecType,
    pub body: Seq<SpecExpression>,
}

/// The model of a declared type, where there is one.
pub open spec fn opt_type_model(t: Option<Type>) -> Option<SpecType> {
    match t {
        Some(t) => Some(t@),
        None => None,
    }
}

/// The models of a list of expressions, element by element.
pub open spec fn exprs_model<T: TypeBound>(v: Vec<Expression<T>>) -> Seq<SpecExpression>
    decreases v,
{
    Seq::new(
        v@.len(),
        |i: int|
            if 0 <= i < v@.len() {
                v@[i].model()
            } else {
                arbitrary()
            },
    )
}

/// The models of a list of parameters, element by element.
pub open spec fn params_model(v: Vec<(String, Type)>) -> Seq<(Seq<char>, SpecType)> {
    Seq::new(v@.len(), |i: int| (v@[i].0@, v@[i].1@))
}

/// The models of a list of functions, element by element.
pub open spec fn functions_model<T: TypeBound>(v: Vec<Function<T>>) -> Seq<SpecFunction> {
    Seq::new(v@.len(), |i: int| v@[i]@)
}

impl<T: TypeBound> Expression<T> {
    /// The model of this expression.
    pub open spec fn model(&self) -> SpecExpression
        decreases self,
    {
        SpecExpression { expr: self.expr.model(), ty: self.ty.annotation() }
    }

    /// A deep copy.
    pub fn duplicate(&self) -> (r: Expression<T>)
        ensures
            r@ == self@,
        decreases self,
    {
        Expression { expr: self.expr.duplicate(), ty: self.ty.copy_annotation() }
    }
}

impl<T: TypeBound> Expr<T> {
    /// The model of this form.
    pub open spec fn model(&self) -> SpecExpr
        decreases self,
    {
        match self {
            Expr::Unary { op, rhs } => SpecExpr::Unary { op: *op, rhs: Box::new(rhs.model()) },
            Expr::Binary { lhs, op, rhs } => SpecExpr::Binary {
                lhs: Box::new(lhs.model()),
                op: *op,
                rhs: Box::new(rhs.model()),
            },
            Expr::Value(v) => SpecExpr::Value(v@),
            Expr::Tuple(v) => SpecExpr::Tuple(exprs_model(*v)),
            Expr::Array(v) => SpecExpr::Array(exprs_model(*v)),
            Expr::Reference(s) => SpecExpr::Reference(s@),
            Expr::Let { name, value, ty, mutable } => SpecExpr::Let {
                name: name@,
                value: Box::new(value.model()),
                ty: opt_type_model(*ty),
                mutable: *mutable,
            },
            Expr::If { cond, then_, else_ } => SpecExpr::If {
                cond: Box::new(cond.model()),
                then_: exprs_model(then_.0),
                else_: match else_ {
                    Some(e) => Some(exprs_model(e.0)),
                    None => None,
                },
            },
            Expr::Call { func, args } => SpecExpr::Call {
                func: Box::new(func.model()),
                args: exprs_model(*args),
            },
            Expr::While { cond, body } => SpecExpr::While {
                cond: Box::new(cond.model()),
                body: exprs_model(body.0),
            },
        }
    }

    /// A deep copy.
    pub fn duplicate(&self) -> (r: Expr<T>)
        ensures
            r.model() == self.model(),
        decreases self,
    {
        match self {
            Expr::Unary { op, rhs } => Expr::Unary { op: *op, rhs: Box::new(rhs.duplicate()) },
            Expr::Binary { lhs, op, rhs } => Expr::Binary {
                lhs: Box::new(lhs.duplicate()),
                op: *op,
                rhs: Box::new(rhs.duplicate()),
            },
            Expr::Value(v) => Expr::Value(v.clone()),
            Expr::Tuple(v) => Expr::Tuple(duplicate_exprs(v)),
            Expr::Array(v) => Expr::Array(duplicate_exprs(v)),
            Expr::Reference(s) => Expr::Reference(s.clone()),
            Expr::Let { name, value, ty, mutable } => Expr::Let {
                name: name.clone(),
                value: Box::new(value.duplicate()),
                ty: match ty {
                    Some(t) => Some(t.duplicate()),
                    None => None,
                },
                mutable: *mutable,
            },
            Expr::If { cond, then_, else_ } => Expr::If {
                cond: Box::new(cond.duplicate()),
                then_: Sequence(duplicate_exprs(&then_.0)),
                else_: match else_ {
                    Some(e) => Some(Sequence(duplicate_exprs(&e.0))),
                    None => None,
                },
            },
            Expr::Call { func, args } => Expr::Call {
                func: Box::new(func.duplicate()),
                args: duplicate_exprs(args),
            },
            Expr::While { cond, body } => Expr::While {
                cond: Box::new(cond.duplicate()),
                body: Sequence(duplicate_exprs(&body.0)),
            },
        }
    }
}

/// A deep copy of a list of expressions.
pub fn duplicate_exprs<T: TypeBound>(v: &Vec<Expression<T>>) -> (r: Vec<Expression<T>>)
    ensures
        exprs_model(r) == exprs_model(*v),
    decreases v,
{
    let mut out: Vec<Expression<T>> = Vec::new();
    let mut i: usize = 0;
    while i < v.len()
        invariant
            0 <= i <= v.len(),
            out.len() == i,
            forall|j: int| 0 <= j < i ==> out@[j]@ == v@[j]@,
        decreases v.len() - i,
    {
        out.push(v[i].duplicate());
        i += 1;
    }
    assert(exprs_model(out) =~= exprs_model(*v));
    out
}

impl<T: TypeBound> View for Expression<T> {
    type V = SpecExpression;

    open spec fn view(&self) -> SpecExpression {
        self.model()
    }
}

impl<T: TypeBound> View for Sequence<T> {
    type V = Seq<SpecExpression>;

    open spec fn view(&self) -> Seq<SpecExpression> {
        exprs_model(self.0)
    }
}

impl<T: TypeBound> View for Function<T> {
    type V = SpecFunction;

    open spec fn view(&self) -> SpecFunction {
        SpecFunction {
            name: self.name@,
            args: params_model(self.args),
            ret: self.ret@,
            body: self.body@,
        }
    }
}

impl<T: TypeBound> View for Program<T> {
    type V = Seq<SpecFunction>;

    open spec fn view(&self) -> Seq<SpecFunction> {
        functions_model(self.0)
    }
}

/// A deep copy of a list of parameters.
pub fn duplicate_params(v: &Vec<(String, Type)>) -> (r: Vec<(String, Type)>)
    ensures
        params_model(r) == params_model(*v),
{
    let mut out: Vec<(String, Type)> = Vec::new();
    let mut i: usize = 0;
    while i < v.len()
        invariant
            0 <= i <= v.len(),
            out.len() == i,
            forall|j: int| 0 <= j < i ==> out@[j].0@ == v@[j].0@ && out@[j].1@ == v@[j].1@,
        decreases v.len() - i,
    {
        out.push((v[i].0.clone(), v[i].1.duplicate()));
        i += 1;
    }
    assert(params_model(out) =~= params_model(*v));
    out
}

impl<T: TypeBound> Sequence<T> {
    /// A deep copy.
    pub fn duplicate(&self) -> (r: Sequence<T>)
        ensures
            r@ == self@,
    {
        Sequence(duplicate_exprs(&self.0))
    }
}

impl<T: TypeBound> Function<T> {
    /// A deep copy.
    pub fn duplicate(&self) -> (r: Function<T>)
        ensures
            r@ == self@,
    {
        Function {
            name: self.name.clone(),
            args: duplicate_params(&self.args),
            ret: self.ret.duplicate(),
            body: self.body.duplicate(),
        }
    }
}

impl Value {
    /// The literal for an unsigned number, reinterpreted as a signed one.
    pub fn from_number(n: u64) -> (r: Value)
        ensures
            r@ == SpecValue::Number(n as i64),
    {
        Value::Number(n as i64)
    }
}

impl Expression<()> {
    /// An expression without a type.
    pub fn untyped(expr: Expr<()>) -> (r: Expression<()>)
        ensures
            r@ == (SpecExpression { expr: expr.model(), ty: None }),
    {
        Expression { expr, ty: () }
    }
}

} // verus!
