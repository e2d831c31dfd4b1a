//! A program in the form that the printer and the parser agree on reads
//! back from its printed text as itself; and which programs that were
//! parsed are in that form.

use vstd::prelude::*;
use crate::ast::prettyprint::program_text;
use crate::ast::tree::{SpecExpr, SpecExpression, SpecFunction, SpecValue};
use crate::parser::laws::{all_readable, readable};
use crate::parser::error::SpecError;
use crate::parser::grammar::program;
use crate::parser::scanner::{scan_token, skip_whitespace};
use crate::parser::stream::next_kind;
use crate::parser::tokens::SpecTokenType;
use crate::roundtrip::canon::{
    canon, canon_function, canon_program, legible, legible_function, legible_program, plain_value,
    Place,
};
use crate::roundtrip::shape::{
    law_parsed_shape, shaped, shaped_function, shaped_program,
};
use crate::roundtrip::layout::{flatten, lemma_pieces_scan};
use crate::roundtrip::printed_programs::{lemma_program_printed, program_pieces};
use crate::roundtrip::programs::law_program_reads;

verus! {

/// Blanks up to the end of the source are skipped up to the end.
proof fn lemma_skip_to_end(src: Seq<char>, at: int)
    requires
        0 <= at <= src.len(),
        forall|i: int| at <= i < src.len() ==> #[trigger] src[i] == '\n',
    ensures
        skip_whitespace(src, at) == src.len(),
    decreases src.len() - at,
{
    if at < src.len() {
        assert(src[at] == '\n');
        lemma_skip_to_end(src, at + 1);
    }
}

/// Before nothing but line feeds up to the end of the source, the next
/// token is `Eof`.
proof fn lemma_eof(src: Seq<char>, at: int)
    requires
        0 <= at <= src.len(),
        forall|i: int| at <= i < src.len() ==> #[trigger] src[i] == '\n',
    ensures
        next_kind(src, at) == Some(SpecTokenType::Eof),
{
    reveal(scan_token);
    lemma_skip_to_end(src, at);
}

/// A program in form, whose names and literals are legible, reads back
/// from its printed text as itself.
#[verifier::rlimit(50)]
pub proof fn law_round_trip(funcs: Seq<SpecFunction>)
    requires
        canon_program(funcs),
        legible_program(funcs),
    ensures
        program(program_text(funcs)) == Ok::<Seq<SpecFunction>, SpecError>(funcs),
{
    let src = program_text(funcs);
    if funcs.len() == 0 {
        assert(src =~= Seq::<char>::empty());
        assert(funcs =~= Seq::<SpecFunction>::empty());
        lemma_eof(src, 0);
    } else {
        let ps = program_pieces(funcs, 0);
        lemma_program_printed(funcs, 0);
        assert(funcs.subrange(0, funcs.len() as int) =~= funcs);
        let text = flatten(ps);
        let n = text.len() as int;
        assert(src == text + seq!['\n', '\n']);
        assert(src.subrange(0, n) =~= text);
        assert(src[n] == '\n');
        lemma_pieces_scan(src, 0, ps);
        assert forall|i: int| n <= i < src.len() implies #[trigger] src[i] == '\n' by {
            assert(src[i] == seq!['\n', '\n'][i - n]);
        }
        lemma_eof(src, n);
        law_program_reads(src, funcs);
    }
}

/// For a program in form, whose names and literals are legible, printing
/// and parsing has settled at once: the text of what is parsed from the
/// text of the program is the text of the program, and so is the text of
/// what is parsed from that.
pub proof fn law_settles(funcs: Seq<SpecFunction>)
    requires
        canon_program(funcs),
        legible_program(funcs),
    ensures
        program(program_text(funcs)) matches Ok(once) && program_text(once) == program_text(funcs)
            && (program(program_text(once)) matches Ok(twice) && program_text(twice)
            == program_text(once)),
{
    law_round_trip(funcs);
}

/// Whether an expression, where it stands, is written back as it was
/// read: none of its numbers is negative, every character of its literals
/// is readable, no assignment stands where a term or an operand is read,
/// and no binding where a term is read.
///
/// The parser reads a group in parentheses as the expression in it, and a
/// number of more than 63 bits as a negative one; the printer puts no
/// parentheses around an assignment or a binding, prints a negative number
/// with its sign, and a character beyond the readable ones by its code.
/// This is what is left to ask of a program that was parsed.
pub open spec fn faithful(e: SpecExpression, place: Place) -> bool
    decreases e,
{
    match e.expr {
        SpecExpr::Value(v) => plain_value(v) && match v {
            SpecValue::Char(c) => readable(c),
            SpecValue::String(s) => all_readable(s),
            _ => true,
        },
        SpecExpr::Reference(_) => true,
        SpecExpr::Unary { op, rhs } => if op is TupleIndex {
            faithful(*rhs, Place::Term)
        } else {
            faithful(*rhs, Place::Operand)
        },
        SpecExpr::Binary { lhs, op, rhs } => if op is Assign {
            place is Whole && faithful(*lhs, Place::Term) && faithful(*rhs, Place::Whole)
        } else if op is ArrayIndex {
            faithful(*lhs, Place::Term) && faithful(*rhs, Place::Whole)
        } else {
            faithful(*lhs, Place::Term) && faithful(*rhs, Place::Operand)
        },
        SpecExpr::Tuple(items) => forall|i: int|
            0 <= i < items.len() ==> faithful(#[trigger] items[i], Place::Whole),
        SpecExpr::Array(items) => forall|i: int|
            0 <= i < items.len() ==> faithful(#[trigger] items[i], Place::Whole),
        SpecExpr::Let { name, value, ty, mutable } => !(place is Term) && faithful(
            *value,
            Place::Whole,
        ),
        SpecExpr::If { cond, then_, else_ } => faithful(*cond, Place::Whole) && (forall|i: int|
            0 <= i < then_.len() ==> faithful(#[trigger] then_[i], Place::Whole)) && (
        else_ matches Some(other) ==> (forall|i: int|
            0 <= i < other.len() ==> faithful(#[trigger] other[i], Place::Whole))),
        SpecExpr::Call { func, args } => faithful(*func, Place::Term) && (forall|i: int|
            0 <= i < args.len() ==> faithful(#[trigger] args[i], Place::Whole)),
        SpecExpr::While { cond, body } => faithful(*cond, Place::Whole) && (forall|i: int|
            0 <= i < body.len() ==> faithful(#[trigger] body[i], Place::Whole)),
    }
}

/// Whether every expression of every body of a program is written back
/// as it was read.
pub open spec fn faithful_program(funcs: Seq<SpecFunction>) -> bool {
    forall|i: int, j: int|
        0 <= i < funcs.len() && 0 <= j < funcs[i].body.len() ==> faithful(
            #[trigger] funcs[i].body[j],
            Place::Whole,
        )
}

/// Every expression of a list of the parser's shape that is written back
/// as it was read is in form and legible.
proof fn lemma_faithful_all(items: Seq<SpecExpression>)
    requires
        forall|i: int| 0 <= i < items.len() ==> shaped(#[trigger] items[i]),
        forall|i: int| 0 <= i < items.len() ==> faithful(#[trigger] items[i], Place::Whole),
    ensures
        forall|i: int| 0 <= i < items.len() ==> canon(#[trigger] items[i], Place::Whole),
        forall|i: int| 0 <= i < items.len() ==> legible(#[trigger] items[i]),
    decreases items, 1int,
{
    assert forall|i: int| 0 <= i < items.len() implies canon(#[trigger] items[i], Place::Whole)
        && legible(items[i]) by {
        lemma_faithful(items[i], Place::Whole);
    }
}

/// An expression of the parser's shape that is written back as it was
/// read is in form and legible.
proof fn lemma_faithful(e: SpecExpression, place: Place)
    requires
        shaped(e),
        faithful(e, place),
    ensures
        canon(e, place),
        legible(e),
    decreases e, 0int,
{
    match e.expr {
        SpecExpr::Value(v) => {},
        SpecExpr::Reference(_) => {},
        SpecExpr::Unary { op, rhs } => {
            if op is TupleIndex {
                lemma_faithful(*rhs, Place::Term);
            } else {
                lemma_faithful(*rhs, Place::Operand);
            }
        },
        SpecExpr::Binary { lhs, op, rhs } => {
            lemma_faithful(*lhs, Place::Term);
            if op is Assign || op is ArrayIndex {
                lemma_faithful(*rhs, Place::Whole);
            } else {
                lemma_faithful(*rhs, Place::Operand);
            }
        },
        SpecExpr::Tuple(items) => {
            lemma_faithful_all(items);
        },
        SpecExpr::Array(items) => {
            lemma_faithful_all(items);
        },
        SpecExpr::Let { name, value, ty, mutable } => {
            lemma_faithful(*value, Place::Whole);
        },
        SpecExpr::If { cond, then_, else_ } => {
            lemma_faithful(*cond, Place::Whole);
            lemma_faithful_all(then_);
            match else_ {
                Some(other) => {
                    lemma_faithful_all(other);
                },
                None => {},
            }
        },
        SpecExpr::Call { func, args } => {
            lemma_faithful(*func, Place::Term);
            lemma_faithful_all(args);
        },
        SpecExpr::While { cond, body } => {
            lemma_faithful(*cond, Place::Whole);
            lemma_faithful_all(body);
        },
    }
}

/// A program of the parser's shape that is written back as it was read
/// is in form and legible.
pub proof fn lemma_faithful_program(funcs: Seq<SpecFunction>)
    requires
        shaped_program(funcs),
        faithful_program(funcs),
    ensures
        canon_program(funcs),
        legible_program(funcs),
{
    assert forall|i: int| 0 <= i < funcs.len() implies canon_function(#[trigger] funcs[i])
        && legible_function(funcs[i]) by {
        let f = funcs[i];
        assert(shaped_function(f));
        assert forall|j: int| 0 <= j < f.body.len() implies faithful(
            #[trigger] f.body[j],
            Place::Whole,
        ) by {
            assert(faithful(funcs[i].body[j], Place::Whole));
        }
        lemma_faithful_all(f.body);
    }
}

/// For which parsed programs printing and parsing has settled: whatever
/// the source, a program that is parsed from it and is written back as it
/// was read reads back from its text as itself. So the text of what is
/// parsed from its text is its text again.
pub proof fn law_parsed_settles(src: Seq<char>)
    requires
        program(src) matches Ok(funcs) && faithful_program(funcs),
    ensures
        program(src) matches Ok(funcs) && program(program_text(funcs)) == Ok::<
            Seq<SpecFunction>,
            SpecError,
        >(funcs) && canon_program(funcs) && legible_program(funcs),
{
    let funcs = program(src)->Ok_0;
    law_parsed_shape(src);
    lemma_faithful_program(funcs);
    law_round_trip(funcs);
}

/// From where printing and parsing has settled: whatever the program,
/// once what is parsed from its text is written back as it was read, that
/// reads back from its own text as itself, and so does every round after
/// it.
pub proof fn law_settles_after(funcs: Seq<SpecFunction>)
    requires
        program(program_text(funcs)) matches Ok(once) && faithful_program(once),
    ensures
        program(program_text(funcs)) matches Ok(once) && program(program_text(once)) == Ok::<
            Seq<SpecFunction>,
            SpecError,
        >(once),
{
    law_parsed_settles(program_text(funcs));
}

/// Only a program of the parser's shape reads back from its text as
/// itself.
pub proof fn law_read_back_shape(funcs: Seq<SpecFunction>)
    requires
        program(program_text(funcs)) == Ok::<Seq<SpecFunction>, SpecError>(funcs),
    ensures
        shaped_program(funcs),
{
    law_parsed_shape(program_text(funcs));
}

} // verus!
