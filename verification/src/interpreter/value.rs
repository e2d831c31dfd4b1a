//! Runtime values.

use vstd::prelude::*;
use crate::ast::tree;
use crate::ast::tree::{Function, SpecFunction, SpecValue, TypeBound};
use crate::text::chars_of;
use crate::semantics::rules::signature;
use crate::semantics::types::{spec_integer, types_model, Size, SpecType, Type};

verus! {

/// A value at run time. A function value is the function's declaration.
#[derive(Debug, PartialEq)]
pub enum Value<T: TypeBound> {
    Signed(i64),
    Bool(bool),
    Char(char),
    Tuple(Vec<Value<T>>),
    Array(Vec<Value<T>>),
    Function(Function<T>),
}

/// The model of a runtime [`Value`].
pub ghost enum RunValue {
    Signed(i64),
    Bool(bool),
    Char(char),
    Tuple(Seq<RunValue>),
    Array(Seq<RunValue>),
    Function(SpecFunction),
}

/// The value that a literal stands for: a string is the array of its
/// characters.
pub open spec fn literal_value(v: SpecValue) -> RunValue {
    match v {
        SpecValue::Number(n) => RunValue::Signed(n),
        SpecValue::Bool(b) => RunValue::Bool(b),
        SpecValue::Char(c) => RunValue::Char(c),
        SpecValue::String(s) => RunValue::Array(char_values(s)),
    }
}

/// The value that is character `i` of `s`.
pub open spec fn char_at(s: Seq<char>, i: int) -> RunValue {
    RunValue::Char(s[i])
}

/// The values that are the characters of `s`, in order.
pub open spec fn char_values(s: Seq<char>) -> Seq<RunValue> {
    Seq::new(s.len(), |i: int| char_at(s, i))
}

/// The unit value: the empty tuple.
pub open spec fn unit_value() -> RunValue {
    RunValue::Tuple(Seq::empty())
}

/// The types of a list of values, in order.
pub open spec fn types_of_values(items: Seq<RunValue>) -> Seq<SpecType>
    decreases items,
{
    Seq::new(
        items.len(),
        |i: int|
            if 0 <= i < items.len() {
                type_of_value(items[i])
            } else {
                SpecType::Bool
            },
    )
}

/// The type of a value, by its tag: an array has the type of its first
/// item for its items, or `char` when it has none.
pub open spec fn type_of_value(v: RunValue) -> SpecType
    decreases v,
{
    match v {
        RunValue::Signed(_) => spec_integer(),
        RunValue::Bool(_) => SpecType::Bool,
        RunValue::Char(_) => SpecType::Char,
        RunValue::Tuple(items) => SpecType::Tuple(types_of_values(items)),
        RunValue::Array(items) => SpecType::Array(
            Box::new(
                if items.len() == 0 {
                    SpecType::Char
                } else {
                    type_of_value(items[0])
                },
            ),
            items.len() as usize,
        ),
        RunValue::Function(f) => signature(f),
    }
}

/// The models of a list of values, element by element.
pub open spec fn values_model<T: TypeBound>(v: Vec<Value<T>>) -> Seq<RunValue>
    decreases v,
{
    Seq::new(
        v@.len(),
        |i: int|
            if 0 <= i < v@.len() {
                v@[i].model()
            } else {
                arbitrary()
            },
    )
}

impl<T: TypeBound> Value<T> {
    /// The model of this value.
    pub open spec fn model(&self) -> RunValue
        decreases self,
    {
        match self {
            Value::Signed(n) => RunValue::Signed(*n),
            Value::Bool(b) => RunValue::Bool(*b),
            Value::Char(c) => RunValue::Char(*c),
            Value::Tuple(items) => RunValue::Tuple(values_model(*items)),
            Value::Array(items) => RunValue::Array(values_model(*items)),
            Value::Function(f) => RunValue::Function(f@),
        }
    }

    /// The unit value.
    pub fn unit() -> (r: Value<T>)
        ensures
            r@ == unit_value(),
    {
        let items: Vec<Value<T>> = Vec::new();
        assert(values_model(items) =~= Seq::<RunValue>::empty());
        Value::Tuple(items)
    }

    /// The type of the value, by its tag.
    pub fn type_of(&self) -> (r: Type)
        ensures
            r@ == type_of_value(self@),
        decreases self,
    {
        match self {
            Value::Signed(_) => Type::Signed(Size::ThirtyTwo),
            Value::Bool(_) => Type::Bool,
            Value::Char(_) => Type::Char,
            Value::Tuple(items) => Type::Tuple(types_of(items)),
            Value::Array(items) => {
                let item = if items.len() == 0 {
                    let item = Type::Char;
                    assert(item@ == SpecType::Char);
                    item
                } else {
                    assert(values_model(*items)[0] == items@[0]@);
                    items[0].type_of()
                };
                assert(values_model(*items).len() == items@.len());
                Type::Array(Box::new(item), items.len())
            },
            Value::Function(f) => f.get_type(),
        }
    }

    /// A deep copy.
    pub fn duplicate(&self) -> (r: Value<T>)
        ensures
            r@ == self@,
        decreases self,
    {
        match self {
            Value::Signed(n) => Value::Signed(*n),
            Value::Bool(b) => Value::Bool(*b),
            Value::Char(c) => Value::Char(*c),
            Value::Tuple(items) => Value::Tuple(duplicate_values(items)),
            Value::Array(items) => Value::Array(duplicate_values(items)),
            Value::Function(f) => Value::Function(f.duplicate()),
        }
    }
}

impl<T: TypeBound> View for Value<T> {
    type V = RunValue;

    open spec fn view(&self) -> RunValue {
        self.model()
    }
}

impl<T: TypeBound> Clone for Value<T> {
    fn clone(&self) -> (r: Value<T>)
        ensures
            r@ == self@,
    {
        self.duplicate()
    }
}

/// The value that a literal stands for.
pub fn literal<T: TypeBound>(v: &tree::Value) -> (r: Value<T>)
    ensures
        r@ == literal_value(v@),
{
    match v {
        tree::Value::Number(x) => Value::Signed(*x),
        tree::Value::Bool(x) => Value::Bool(*x),
        tree::Value::Char(x) => Value::Char(*x),
        tree::Value::String(x) => {
            let chars = chars_of(x.as_str());
            let mut items: Vec<Value<T>> = Vec::new();
            push_chars(&mut items, &chars);
            Value::Array(items)
        },
    }
}

/// Fills an empty list with the values that are the characters of `chars`,
/// in order.
fn push_chars<T: TypeBound>(items: &mut Vec<Value<T>>, chars: &Vec<char>)
    requires
        old(items)@.len() == 0,
    ensures
        values_model(*final(items)) == char_values(chars@),
{
    let mut k: usize = 0;
    assert(values_model(*items) =~= char_values(chars@).take(0));
    while k < chars.len()
        invariant
            0 <= k <= chars.len(),
            values_model(*items) == char_values(chars@).take(k as int),
        decreases chars.len() - k,
    {
        push_char(items, chars[k]);
        assert(char_values(chars@)[k as int] == char_at(chars@, k as int));
        assert(char_values(chars@).take(k as int).push(char_at(chars@, k as int))
            =~= char_values(chars@).take(k + 1));
        k += 1;
    }
    assert(char_values(chars@).take(chars.len() as int) =~= char_values(chars@));
}

/// Adds a character at the end of a list of values.
fn push_char<T: TypeBound>(items: &mut Vec<Value<T>>, c: char)
    ensures
        values_model(*final(items)) == values_model(*old(items)).push(RunValue::Char(c)),
{
    items.push(Value::Char(c));
    assert(values_model(*items) =~= values_model(*old(items)).push(RunValue::Char(c)));
}

/// The types of a list of values, in order.
pub fn types_of<T: TypeBound>(items: &Vec<Value<T>>) -> (r: Vec<Type>)
    ensures
        types_model(r) == types_of_values(values_model(*items)),
    decreases items,
{
    let mut out: Vec<Type> = Vec::new();
    let mut i: usize = 0;
    while i < items.len()
        invariant
            0 <= i <= items.len(),
            out.len() == i,
            forall|j: int| 0 <= j < i ==> out@[j]@ == type_of_value(items@[j]@),
        decreases items.len() - i,
    {
        out.push(items[i].type_of());
        i += 1;
    }
    assert(types_model(out) =~= types_of_values(values_model(*items)));
    out
}

/// A deep copy of a list of values.
pub fn duplicate_values<T: TypeBound>(items: &Vec<Value<T>>) -> (r: Vec<Value<T>>)
    ensures
        values_model(r) == values_model(*items),
    decreases items,
{
    let mut out: Vec<Value<T>> = Vec::new();
    let mut i: usize = 0;
    while i < items.len()
        invariant
            0 <= i <= items.len(),
            out.len() == i,
            forall|j: int| 0 <= j < i ==> out@[j]@ == items@[j]@,
        decreases items.len() - i,
    {
        out.push(items[i].duplicate());
        i += 1;
    }
    assert(values_model(out) =~= values_model(*items));
    out
}

} // verus!
