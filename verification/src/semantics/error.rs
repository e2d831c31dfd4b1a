//! What the type checker can object to.

use vstd::prelude::*;
use crate::ast::tree::Operator;
use crate::semantics::types::{SpecType, Type};

verus! {

/// A type error. The first one met ends the check.
#[derive(Debug)]
pub enum Error {
    /// Two types that had to be equal, once a mutable marker at the top of
    /// either is set aside, are not.
    UnexpectedType(Type, Type),
    /// The target of an assignment is not a mutable binding; its type.
    NotMutable(Type),
    /// Two functions of one name: the type of the later, the type of the
    /// earlier, the name.
    Redeclaration(Type, Type, String),
    /// A binding of a name that is bound already.
    RedeclarationVariable(String),
    /// The program has no function of this name.
    FunctionNotFound(String),
    /// No binding of this name is in scope.
    VariableNotFound(String),
    /// What is called is no function; its type.
    ExpectedFunction(Type),
    /// What is dereferenced is no reference; its type.
    InvalidDereference(Type),
    /// What is indexed is no tuple, or has too few items; its type.
    InvalidTupleIndex(Type),
    /// What is indexed is no array; its type.
    InvalidArrayIndex(Type),
    /// An operator that takes no single operand, before one.
    InvalidUnary(Operator),
    /// An operator that takes no two operands, between two.
    InvalidBinary(Operator),
    /// An array literal without items has no type.
    EmptyArray,
}

/// The model of an [`Error`].
pub ghost enum SpecError {
    UnexpectedType(SpecType, SpecType),
    NotMutable(SpecType),
    Redeclaration(SpecType, SpecType, Seq<char>),
    RedeclarationVariable(Seq<char>),
    FunctionNotFound(Seq<char>),
    VariableNotFound(Seq<char>),
    ExpectedFunction(SpecType),
    InvalidDereference(SpecType),
    InvalidTupleIndex(SpecType),
    InvalidArrayIndex(SpecType),
    InvalidUnary(Operator),
    InvalidBinary(Operator),
    EmptyArray,
}

impl View for Error {
    type V = SpecError;

    open spec fn view(&self) -> SpecError {
        match self {
            Error::UnexpectedType(a, b) => SpecError::UnexpectedType(a@, b@),
            Error::NotMutable(a) => SpecError::NotMutable(a@),
            Error::Redeclaration(a, b, n) => SpecError::Redeclaration(a@, b@, n@),
            Error::RedeclarationVariable(n) => SpecError::RedeclarationVariable(n@),
            Error::FunctionNotFound(n) => SpecError::FunctionNotFound(n@),
            Error::VariableNotFound(n) => SpecError::VariableNotFound(n@),
            Error::ExpectedFunction(a) => SpecError::ExpectedFunction(a@),
            Error::InvalidDereference(a) => SpecError::InvalidDereference(a@),
            Error::InvalidTupleIndex(a) => SpecError::InvalidTupleIndex(a@),
            Error::InvalidArrayIndex(a) => SpecError::InvalidArrayIndex(a@),
            Error::InvalidUnary(op) => SpecError::InvalidUnary(*op),
            Error::InvalidBinary(op) => SpecError::InvalidBinary(*op),
            Error::EmptyArray => SpecError::EmptyArray,
        }
    }
}

} // verus!
