//! What a run of a source text can fail with, stage by stage, and the
//! notes that an error gathers on its way up.

use vstd::prelude::*;
use crate::interpreter::error::Error as InterpretError;
use crate::interpreter::error::SpecError as SpecInterpretError;
use crate::parser::error::Error as ParserError;
use crate::parser::error::SpecError as SpecParserError;
use crate::semantics::error::Error as InferError;
use crate::semantics::error::SpecError as SpecInferError;

verus! {

/// An error with the notes added to it on its way up: the first note is
/// the one added nearest to where the error arose, the last the one added
/// outermost.
#[derive(Debug)]
pub struct Traced<E> {
    pub error: E,
    pub context: Vec<String>,
}

/// The model of a [`Traced`] error.
pub ghost struct SpecTraced<M> {
    pub error: M,
    pub context: Seq<Seq<char>>,
}

/// The notes of a list of strings, in order.
pub open spec fn notes(v: Vec<String>) -> Seq<Seq<char>> {
    Seq::new(v@.len(), |i: int| v@[i]@)
}

/// The error `e` without any note.
pub open spec fn bare<M>(e: M) -> SpecTraced<M> {
    SpecTraced { error: e, context: Seq::empty() }
}

/// The error `t` with the note `note` added outermost.
pub open spec fn noted<M>(t: SpecTraced<M>, note: Seq<char>) -> SpecTraced<M> {
    SpecTraced { error: t.error, context: t.context.push(note) }
}

impl<E: View> View for Traced<E> {
    type V = SpecTraced<E::V>;

    open spec fn view(&self) -> SpecTraced<E::V> {
        SpecTraced { error: self.error@, context: notes(self.context) }
    }
}

impl<E: View> Traced<E> {
    /// The error without any note.
    pub fn new(error: E) -> (r: Traced<E>)
        ensures
            r@ == bare(error@),
    {
        let r = Traced { error, context: Vec::new() };
        assert(notes(r.context) =~= Seq::<Seq<char>>::empty());
        r
    }

    /// The error with one more note, added outermost.
    pub fn note(self, note: String) -> (r: Traced<E>)
        ensures
            r@ == noted(self@, note@),
    {
        let mut context = self.context;
        let ghost before = notes(context);
        context.push(note);
        assert(notes(context) =~= before.push(note@));
        Traced { error: self.error, context }
    }
}

/// An error of one of the stages.
#[derive(Debug)]
pub enum Error {
    /// The source could not be read; why.
    ReadFile(String),
    /// The source does not scan or parse.
    Parse(ParserError),
    /// The program does not type-check.
    Infer(Traced<InferError>),
    /// The program failed while it ran, or `main` did not return zero.
    Interpreter(Traced<InterpretError>),
    /// Logging could not be set up.
    Log,
}

/// The model of an [`Error`].
pub ghost enum SpecError {
    ReadFile(Seq<char>),
    Parse(SpecParserError),
    Infer(SpecTraced<SpecInferError>),
    Interpreter(SpecTraced<SpecInterpretError>),
    Log,
}

impl View for Error {
    type V = SpecError;

    open spec fn view(&self) -> SpecError {
        match self {
            Error::ReadFile(s) => SpecError::ReadFile(s@),
            Error::Parse(e) => SpecError::Parse(e@),
            Error::Infer(e) => SpecError::Infer(e@),
            Error::Interpreter(e) => SpecError::Interpreter(e@),
            Error::Log => SpecError::Log,
        }
    }
}

} // verus!
