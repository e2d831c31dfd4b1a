//! What can go wrong at run time.

use vstd::prelude::*;
use crate::ast::tree::{params_model, Operator};
use crate::semantics::types::{SpecType, Type};

verus! {

/// A runtime error. The first one met ends the run.
#[derive(Debug)]
pub enum Error {
    /// The type expected, and the type of the value found.
    UnexpectedType(Type, Type),
    /// The program ran to its end, and `main` returned this number, which
    /// is not zero.
    NonZeroExitCode(i64),
    /// The number of arguments expected, and the parameters found.
    ArgumentCountMismatch(usize, Vec<(String, Type)>),
    /// An operator, and the type of the value it cannot be applied to.
    InvalidUnary(Operator, Type),
    /// An operator, and the types of the two values it cannot be applied
    /// to.
    InvalidBinary(Operator, Type, Type),
    /// A name that is not bound.
    UndefinedVariable(String),
    /// An assignment to a name that is bound for good.
    ImmutableVariable(String),
    /// An assignment to what is no name; the text of the target.
    InvalidAssignment(String),
    /// The program has no function `main`.
    MainNotFound,
    /// A division by zero.
    DivisionByZero,
    /// Calls nested deeper, or a loop repeated more often, than the limit
    /// given to the run allows.
    LimitExceeded,
}

/// The model of an [`Error`].
pub ghost enum SpecError {
    UnexpectedType(SpecType, SpecType),
    NonZeroExitCode(i64),
    ArgumentCountMismatch(usize, Seq<(Seq<char>, SpecType)>),
    InvalidUnary(Operator, SpecType),
    InvalidBinary(Operator, SpecType, SpecType),
    UndefinedVariable(Seq<char>),
    ImmutableVariable(Seq<char>),
    InvalidAssignment(Seq<char>),
    MainNotFound,
    DivisionByZero,
    LimitExceeded,
}

impl View for Error {
    type V = SpecError;

    open spec fn view(&self) -> SpecError {
        match self {
            Error::UnexpectedType(a, b) => SpecError::UnexpectedType(a@, b@),
            Error::NonZeroExitCode(n) => SpecError::NonZeroExitCode(*n),
            Error::ArgumentCountMismatch(n, p) => SpecError::ArgumentCountMismatch(
                *n,
                params_model(*p),
            ),
            Error::InvalidUnary(op, a) => SpecError::InvalidUnary(*op, a@),
            Error::InvalidBinary(op, a, b) => SpecError::InvalidBinary(*op, a@, b@),
            Error::UndefinedVariable(n) => SpecError::UndefinedVariable(n@),
            Error::ImmutableVariable(n) => SpecError::ImmutableVariable(n@),
            Error::InvalidAssignment(n) => SpecError::InvalidAssignment(n@),
            Error::MainNotFound => SpecError::MainNotFound,
            Error::DivisionByZero => SpecError::DivisionByZero,
            Error::LimitExceeded => SpecError::LimitExceeded,
        }
    }
}

} // verus!
