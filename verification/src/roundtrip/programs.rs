//! Functions and programs read back from their tokens.

use vstd::prelude::*;
use crate::ast::tree::SpecFunction;
use crate::parser::error::SpecError;
use crate::parser::grammar::{function, functions, parameters, program};
use crate::parser::progress::lemma_function;
use crate::parser::scanner::lemma_scan_token;
use crate::parser::stream::{
    lemma_stream_advances, lemma_stream_bounds, lemma_stream_concat, lemma_stream_first,
    lemma_stream_head, lemma_stream_one, next_end, next_kind, stream_end,
};
use crate::parser::tokens::{Keyword, SpecTokenType};
use crate::roundtrip::canon::{canon_function, canon_program, writable};
use crate::roundtrip::exprs::lemma_block_reads;
use crate::roundtrip::tokens::{
    arrow, block_tokens, delim, function_tokens, param_tokens, program_tokens, type_tokens,
};
use crate::roundtrip::types::{lemma_type_head, lemma_type_reads};
use crate::semantics::types::SpecType;

verus! {

/// The parameters of a function read back from their tokens and the `)`.
proof fn lemma_parameters_read(
    src: Seq<char>,
    at: int,
    params: Seq<(Seq<char>, SpecType)>,
    i: int,
    acc: Seq<(Seq<char>, SpecType)>,
)
    requires
        at <= src.len(),
        forall|j: int| 0 <= j < params.len() ==> writable((#[trigger] params[j]).1),
        0 <= i <= params.len(),
        i == params.len() ==> i == 0,
        stream_end(src, at, param_tokens(params, i) + seq![delim(')')]) is Some,
    ensures
        parameters(src, at, acc) == Ok::<(Seq<(Seq<char>, SpecType)>, int), SpecError>(
            (
                acc + params.subrange(i, params.len() as int),
                stream_end(src, at, param_tokens(params, i) + seq![delim(')')])->0,
            ),
        ),
    decreases params.len() - i,
{
    lemma_scan_token(src, at);
    let all = param_tokens(params, i) + seq![delim(')')];
    if i == params.len() {
        assert(all =~= seq![delim(')')]);
        lemma_stream_one(src, at, delim(')'));
        assert(acc + params.subrange(i, params.len() as int) =~= acc);
    } else {
        let name = params[i].0;
        let ty = params[i].1;
        let rest = if i + 1 == params.len() {
            seq![delim(')')]
        } else {
            seq![delim(',')] + (param_tokens(params, i + 1) + seq![delim(')')])
        };
        let from_type = type_tokens(ty) + rest;
        let from_colon = seq![delim(':')] + from_type;
        assert(all =~= seq![SpecTokenType::Name(name)] + from_colon);
        lemma_stream_first(src, at, SpecTokenType::Name(name), from_colon);
        let a2 = next_end(src, at);
        lemma_stream_first(src, a2, delim(':'), from_type);
        lemma_scan_token(src, a2);
        let a3 = next_end(src, a2);
        lemma_stream_concat(src, a3, type_tokens(ty), rest);
        lemma_type_head(ty);
        lemma_stream_advances(src, a3, type_tokens(ty));
        let a4 = stream_end(src, a3, type_tokens(ty))->0;
        lemma_stream_head(src, a4, rest);
        assert(delim(',') != arrow() && delim(')') != arrow());
        lemma_type_reads(src, a3, ty);
        lemma_scan_token(src, a4);
        assert(acc.push((name, ty)) + params.subrange(i + 1, params.len() as int) =~= acc
            + params.subrange(i, params.len() as int));
        if i + 1 == params.len() {
            lemma_stream_one(src, a4, delim(')'));
            assert(params.subrange(i + 1, params.len() as int) =~= Seq::<
                (Seq<char>, SpecType),
            >::empty());
            assert(acc.push((name, ty)) + Seq::<(Seq<char>, SpecType)>::empty() =~= acc.push(
                (name, ty),
            ));
        } else {
            let after = param_tokens(params, i + 1) + seq![delim(')')];
            lemma_stream_first(src, a4, delim(','), after);
            let a5 = next_end(src, a4);
            lemma_parameters_read(src, a5, params, i + 1, acc.push((name, ty)));
        }
    }
}

/// A function in form reads back from its tokens.
#[verifier::rlimit(50)]
pub proof fn lemma_function_reads(src: Seq<char>, at: int, f: SpecFunction)
    requires
        at <= src.len(),
        canon_function(f),
        stream_end(src, at, function_tokens(f)) is Some,
    ensures
        function(src, at) == Ok::<(SpecFunction, int), SpecError>(
            (f, stream_end(src, at, function_tokens(f))->0),
        ),
{
    let params = param_tokens(f.args, 0) + seq![delim(')')];
    let from_ret = type_tokens(f.ret) + block_tokens(f.body);
    let from_arrow = seq![arrow()] + from_ret;
    let from_params = params + from_arrow;
    let from_open = seq![delim('(')] + from_params;
    let from_name = seq![SpecTokenType::Name(f.name)] + from_open;
    assert(function_tokens(f) =~= seq![SpecTokenType::Keyword(Keyword::Func)] + from_name);
    lemma_stream_first(src, at, SpecTokenType::Keyword(Keyword::Func), from_name);
    lemma_scan_token(src, at);
    let a1 = next_end(src, at);
    lemma_stream_first(src, a1, SpecTokenType::Name(f.name), from_open);
    lemma_scan_token(src, a1);
    let a2 = next_end(src, a1);
    lemma_stream_first(src, a2, delim('('), from_params);
    lemma_scan_token(src, a2);
    let a3 = next_end(src, a2);
    lemma_stream_concat(src, a3, params, from_arrow);
    lemma_stream_bounds(src, a3, params);
    let a4 = stream_end(src, a3, params)->0;
    lemma_parameters_read(src, a3, f.args, 0, Seq::empty());
    assert(Seq::<(Seq<char>, SpecType)>::empty() + f.args.subrange(0, f.args.len() as int)
        =~= f.args);
    lemma_stream_first(src, a4, arrow(), from_ret);
    lemma_scan_token(src, a4);
    let a5 = next_end(src, a4);
    lemma_stream_concat(src, a5, type_tokens(f.ret), block_tokens(f.body));
    lemma_type_head(f.ret);
    lemma_stream_advances(src, a5, type_tokens(f.ret));
    let a6 = stream_end(src, a5, type_tokens(f.ret))->0;
    assert(block_tokens(f.body)[0] == delim('{'));
    lemma_stream_head(src, a6, block_tokens(f.body));
    assert(delim('{') != arrow());
    lemma_type_reads(src, a5, f.ret);
    lemma_block_reads(src, a6, f.body);
}

/// The tokens of a function start with `fn`.
proof fn lemma_function_head(f: SpecFunction)
    ensures
        function_tokens(f).len() > 0,
        function_tokens(f)[0] == SpecTokenType::Keyword(Keyword::Func),
{
}

/// The functions of a program in form read back from their tokens, up to
/// the end of the source.
proof fn lemma_functions_read(
    src: Seq<char>,
    at: int,
    funcs: Seq<SpecFunction>,
    i: int,
    acc: Seq<SpecFunction>,
)
    requires
        at <= src.len(),
        canon_program(funcs),
        0 <= i <= funcs.len(),
        stream_end(src, at, program_tokens(funcs, i)) matches Some(end) && next_kind(src, end)
            == Some(SpecTokenType::Eof),
    ensures
        functions(src, at, acc) == Ok::<Seq<SpecFunction>, SpecError>(
            acc + funcs.subrange(i, funcs.len() as int),
        ),
    decreases funcs.len() - i,
{
    lemma_scan_token(src, at);
    if i == funcs.len() {
        assert(acc + funcs.subrange(i, funcs.len() as int) =~= acc);
    } else {
        let f = funcs[i];
        lemma_function_head(f);
        lemma_stream_concat(src, at, function_tokens(f), program_tokens(funcs, i + 1));
        lemma_stream_head(src, at, function_tokens(f) + program_tokens(funcs, i + 1));
        lemma_stream_advances(src, at, function_tokens(f));
        let a1 = stream_end(src, at, function_tokens(f))->0;
        lemma_function_reads(src, at, f);
        lemma_function(src, at);
        lemma_functions_read(src, a1, funcs, i + 1, acc.push(f));
        assert(acc.push(f) + funcs.subrange(i + 1, funcs.len() as int) =~= acc + funcs.subrange(
            i,
            funcs.len() as int,
        ));
    }
}

/// A program in form reads back from its tokens: where a source holds the
/// tokens that the program is printed as, and then ends, parsing the source
/// gives the program.
pub proof fn law_program_reads(src: Seq<char>, funcs: Seq<SpecFunction>)
    requires
        canon_program(funcs),
        stream_end(src, 0, program_tokens(funcs, 0)) matches Some(end) && next_kind(src, end)
            == Some(SpecTokenType::Eof),
    ensures
        program(src) == Ok::<Seq<SpecFunction>, SpecError>(funcs),
{
    lemma_functions_read(src, 0, funcs, 0, Seq::empty());
    assert(Seq::<SpecFunction>::empty() + funcs.subrange(0, funcs.len() as int) =~= funcs);
}

} // verus!
