//! A small statically typed expression language: scanner, parser, type
//! checker and tree-walking interpreter, each stated against a mathematical
//! model of the syntax tree.

use vstd::prelude::*;

pub mod ast;
pub mod error;
pub mod interpreter;
pub mod parser;
pub mod roundtrip;
pub mod semantics;
pub mod table;
pub mod text;

verus! {

/// The outcome of a source text: it is parsed, the program is checked, and
/// the checked program runs within `limit`. The first stage that fails
/// gives the error; a later stage then never starts.
pub open spec fn outcome(source: Seq<char>, limit: nat) -> Result<(), error::SpecError> {
    match parser::grammar::program(source) {
        Err(e) => Err(error::SpecError::Parse(e)),
        Ok(untyped) => match semantics::rules::check_program(untyped) {
            Err(e) => Err(error::SpecError::Infer(e)),
            Ok(typed) => match interpreter::eval::run(typed, limit) {
                Err(e) => Err(error::SpecError::Interpreter(e)),
                Ok(_) => Ok(()),
            },
        },
    }
}

/// Runs a source text within a limit on how deep calls nest and how often
/// a loop repeats.
pub fn run_str_within(source: &str, limit: u64) -> (r: Result<(), error::Error>)
    ensures
        match outcome(source@, limit as nat) {
            Ok(_) => r is Ok,
            Err(e) => r matches Err(x) && x@ == e,
        },
{
    let ast = match parser::parser::parse(source) {
        Ok(ast) => ast,
        Err(e) => {
            return Err(error::Error::Parse(e));
        },
    };
    let ast = match semantics::typeinfer::infer(ast) {
        Ok(ast) => ast,
        Err(e) => {
            return Err(error::Error::Infer(e));
        },
    };
    match interpreter::run::run_program_within(ast, limit) {
        Ok(_) => Ok(()),
        Err(e) => Err(error::Error::Interpreter(e)),
    }
}

/// Runs a source text: parses it, checks the program, and runs the
/// checked program.
pub fn run_str(source: &str) -> (r: Result<(), error::Error>)
    ensures
        match outcome(source@, interpreter::run::NO_LIMIT as nat) {
            Ok(_) => r is Ok,
            Err(e) => r matches Err(x) && x@ == e,
        },
{
    run_str_within(source, interpreter::run::NO_LIMIT)
}


/// The exit status of a run: 0 for success; for a `main` that returned
/// another number, the low eight bits of that number, or 1 where they are
/// 0; and 1 for any other error.
pub open spec fn status(outcome: Result<(), error::SpecError>) -> u8 {
    match outcome {
        Ok(_) => 0,
        Err(error::SpecError::Interpreter(t)) => match t.error {
            interpreter::error::SpecError::NonZeroExitCode(n) => {
                let low = #[verifier::truncate] (n as u8);
                if low == 0 {
                    1
                } else {
                    low
                }
            },
            _ => 1,
        },
        Err(_) => 1,
    }
}

/// The exit status of a run.
pub fn exit_status(outcome: &Result<(), error::Error>) -> (r: u8)
    ensures
        r == status(
            match outcome {
                Ok(_) => Ok(()),
                Err(e) => Err(e@),
            },
        ),
        r == 0 <==> outcome is Ok,
{
    match outcome {
        Ok(_) => 0,
        Err(error::Error::Interpreter(t)) => match &t.error {
            interpreter::error::Error::NonZeroExitCode(n) => {
                let low = #[verifier::truncate] (*n as u8);
                if low == 0 {
                    1
                } else {
                    low
                }
            },
            _ => 1,
        },
        Err(_) => 1,
    }
}

/// A source text whose program has no function `main` that takes nothing
/// and returns an integer fails at the type check: no part of it ever runs.
pub proof fn law_entry_point_before_run(source: Seq<char>, limit: nat)
    requires
        parser::grammar::program(source) matches Ok(p) && !semantics::laws::has_entry(p),
    ensures
        outcome(source, limit) matches Err(error::SpecError::Infer(e))
            && semantics::laws::is_entry_error(e.error),
{
    semantics::laws::law_entry_point(parser::grammar::program(source)->Ok_0);
}

/// A source text that runs has passed the type check: what the checker
/// rejects is never evaluated.
pub proof fn law_checked_before_run(source: Seq<char>, limit: nat)
    ensures
        (outcome(source, limit) is Ok || (outcome(source, limit) matches Err(e) && e
            is Interpreter)) ==> (parser::grammar::program(source) matches Ok(p)
            && semantics::rules::check_program(p) is Ok),
{
}

} // verus!
