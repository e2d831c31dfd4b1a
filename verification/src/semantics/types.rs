//! The structural type system of the language.

use vstd::prelude::*;

verus! {

/// Bit width of an integer type.
#[derive(Debug, Clone, Copy, PartialEq, Eq, Structural)]
pub enum Size {
    ThirtyTwo,
}

/// A type of the language. `Mutable` is internal to the checker: it marks the
/// type of a reassignable binding and never appears in source text.
#[derive(Debug, PartialEq)]
pub enum Type {
    Signed(Size),
    Bool,
    Char,
    Tuple(Vec<Type>),
    Array(Box<Type>, usize),
    Function { args: Vec<Type>, ret: Box<Type> },
    Reference(Box<Type>),
    Mutable(Box<Type>),
}

/// The mathematical model of a [`Type`].
pub ghost enum SpecType {
    Signed(Size),
    Bool,
    Char,
    Tuple(Seq<SpecType>),
    Array(Box<SpecType>, usize),
    Function { args: Seq<SpecType>, ret: Box<SpecType> },
    Reference(Box<SpecType>),
    Mutable(Box<SpecType>),
}

/// The 32-bit signed integer type.
pub open spec fn spec_integer() -> SpecType {
    SpecType::Signed(Size::ThirtyTwo)
}

/// The unit type: the empty tuple.
pub open spec fn spec_unit() -> SpecType {
    SpecType::Tuple(Seq::empty())
}

/// The models of a list of types, element by element.
pub open spec fn types_model(v: Vec<Type>) -> Seq<SpecType>
    decreases v,
{
    Seq::new(
        v@.len(),
        |i: int|
            if 0 <= i < v@.len() {
                v@[i].model()
            } else {
                SpecType::Bool
            },
    )
}

impl Type {
    /// The model of this type.
    pub open spec fn model(&self) -> SpecType
        decreases self,
    {
        match self {
            Type::Signed(s) => SpecType::Signed(*s),
            Type::Bool => SpecType::Bool,
            Type::Char => SpecType::Char,
            Type::Tuple(v) => SpecType::Tuple(types_model(*v)),
            Type::Array(t, n) => SpecType::Array(Box::new(t.model()), *n),
            Type::Function { args, ret } => SpecType::Function {
                args: types_model(*args),
                ret: Box::new(ret.model()),
            },
            Type::Reference(t) => SpecType::Reference(Box::new(t.model())),
            Type::Mutable(t) => SpecType::Mutable(Box::new(t.model())),
        }
    }

    /// The unit type.
    pub fn unit() -> (r: Type)
        ensures
            r@ == spec_unit(),
    {
        let r = Type::Tuple(Vec::new());
        assert(types_model(r->Tuple_0) =~= Seq::empty());
        r
    }

    /// The 32-bit signed integer type.
    pub fn integer() -> (r: Type)
        ensures
            r@ == spec_integer(),
    {
        Type::Signed(Size::ThirtyTwo)
    }

    /// A deep copy.
    pub fn duplicate(&self) -> (r: Type)
        ensures
            r@ == self@,
        decreases self,
    {
        match self {
            Type::Signed(s) => Type::Signed(*s),
            Type::Bool => Type::Bool,
            Type::Char => Type::Char,
            Type::Tuple(v) => Type::Tuple(duplicate_types(v)),
            Type::Array(t, n) => Type::Array(Box::new(t.duplicate()), *n),
            Type::Function { args, ret } => Type::Function {
                args: duplicate_types(args),
                ret: Box::new(ret.duplicate()),
            },
            Type::Reference(t) => Type::Reference(Box::new(t.duplicate())),
            Type::Mutable(t) => Type::Mutable(Box::new(t.duplicate())),
        }
    }

    /// Structural equality: the same shape and, recursively, the same parts.
    pub fn equals(&self, other: &Type) -> (r: bool)
        ensures
            r == (self@ == other@),
        decreases self,
    {
        match (self, other) {
            (Type::Signed(a), Type::Signed(b)) => true,
            (Type::Bool, Type::Bool) => true,
            (Type::Char, Type::Char) => true,
            (Type::Tuple(x), Type::Tuple(y)) => equal_types(x, y),
            (Type::Array(t, n), Type::Array(u, m)) => *n == *m && t.equals(u),
            (Type::Function { args: x, ret: t }, Type::Function { args: y, ret: u }) => {
                equal_types(x, y) && t.equals(u)
            },
            (Type::Reference(t), Type::Reference(u)) => t.equals(u),
            (Type::Mutable(t), Type::Mutable(u)) => t.equals(u),
            _ => false,
        }
    }
}

impl View for Type {
    type V = SpecType;

    open spec fn view(&self) -> SpecType {
        self.model()
    }
}

impl Clone for Type {
    fn clone(&self) -> (r: Type)
        ensures
            r@ == self@,
    {
        self.duplicate()
    }
}

/// A deep copy of a list of types.
pub fn duplicate_types(v: &Vec<Type>) -> (r: Vec<Type>)
    ensures
        types_model(r) == types_model(*v),
    decreases v,
{
    let mut out: Vec<Type> = Vec::new();
    let mut i: usize = 0;
    while i < v.len()
        invariant
            0 <= i <= v.len(),
            out.len() == i,
            forall|j: int| 0 <= j < i ==> out@[j]@ == v@[j]@,
        decreases v.len() - i,
    {
        out.push(v[i].duplicate());
        i += 1;
    }
    assert(types_model(out) =~= types_model(*v));
    out
}

/// Whether two lists of types are equal element by element.
pub fn equal_types(x: &Vec<Type>, y: &Vec<Type>) -> (r: bool)
    ensures
        r == (types_model(*x) == types_model(*y)),
    decreases x,
{
    if x.len() != y.len() {
        assert(types_model(*x).len() != types_model(*y).len());
        return false;
    }
    let mut i: usize = 0;
    while i < x.len()
        invariant
            0 <= i <= x.len(),
            x.len() == y.len(),
            forall|j: int| 0 <= j < i ==> x@[j]@ == y@[j]@,
        decreases x.len() - i,
    {
        if !x[i].equals(&y[i]) {
            assert(types_model(*x)[i as int] == x@[i as int]@);
            assert(types_model(*y)[i as int] == y@[i as int]@);
            return false;
        }
        i += 1;
    }
    assert(types_model(*x) =~= types_model(*y));
    true
}

} // verus!
