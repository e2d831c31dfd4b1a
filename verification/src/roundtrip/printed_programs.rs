//! Functions and programs as they are printed, as pieces.

use vstd::prelude::*;
use crate::ast::prettyprint::{
    function_text, indent, join, param_texts, program_text, sequence_text, type_text,
};
use crate::ast::tree::SpecFunction;
use crate::parser::tokens::{Keyword, SpecTokenType};
use crate::roundtrip::canon::{
    canon_function, canon_program, legible_function, legible_program, writable,
};
use crate::roundtrip::layout::{blank, flatten, is_name, keyword_text, kinds, sound, Piece};
use crate::roundtrip::pieces::{flat, lemma_join_front, none, one, pad, sp, spell};
use crate::roundtrip::printed::{
    block_pieces, block_text, lemma_block_printed, lemma_bracketed, lemma_close, lemma_glue,
    lemma_one, lemma_signs, lemma_spaced, lemma_type_printed, type_pieces,
};
use crate::roundtrip::tokens::{
    arrow, delim, function_tokens, param_tokens, program_tokens, type_tokens,
};
use crate::semantics::types::SpecType;

verus! {

/// The pieces of the parameters of `params` from index `i` on, with a
/// comma and a space between each two.
pub open spec fn param_pieces(params: Seq<(Seq<char>, SpecType)>, i: int) -> Seq<Piece>
    decreases params.len() - i,
{
    if !(0 <= i < params.len()) {
        Seq::empty()
    } else {
        let one_param = one(none(), SpecTokenType::Name(params[i].0)) + one(none(), delim(':'))
            + pad(sp(), type_pieces(params[i].1));
        if i + 1 == params.len() {
            one_param
        } else {
            one_param + one(none(), delim(',')) + pad(sp(), param_pieces(params, i + 1))
        }
    }
}

/// The pieces of a function.
pub open spec fn function_pieces(f: SpecFunction) -> Seq<Piece> {
    one(none(), SpecTokenType::Keyword(Keyword::Func)) + one(sp(), SpecTokenType::Name(f.name))
        + (one(none(), delim('(')) + param_pieces(f.args, 0) + one(none(), delim(')'))) + one(
        sp(),
        arrow(),
    ) + pad(sp(), type_pieces(f.ret)) + block_pieces(f.body)
}

/// The pieces of the functions of `funcs` from index `i` on, with an
/// empty line between each two.
pub open spec fn program_pieces(funcs: Seq<SpecFunction>, i: int) -> Seq<Piece>
    decreases funcs.len() - i,
{
    if !(0 <= i < funcs.len()) {
        Seq::empty()
    } else if i + 1 == funcs.len() {
        function_pieces(funcs[i])
    } else {
        function_pieces(funcs[i]) + pad(seq!['\n', '\n'], program_pieces(funcs, i + 1))
    }
}

/// One parameter, printed.
proof fn lemma_param_printed(name: Seq<char>, t: SpecType)
    requires
        is_name(name),
        writable(t),
    ensures
        ({
            let all = one(none(), SpecTokenType::Name(name)) + one(none(), delim(':')) + pad(
                sp(),
                type_pieces(t),
            );
            &&& sound(all)
            &&& flat(all)
            &&& all.len() > 0
            &&& all[0].gap.len() == 0
            &&& flatten(all) == name + ": "@ + type_text(t)
            &&& kinds(all) == seq![SpecTokenType::Name(name), delim(':')] + type_tokens(t)
        }),
{
    reveal_strlit(": ");
    lemma_type_printed(t);
    lemma_one(none(), SpecTokenType::Name(name));
    let n = one(none(), SpecTokenType::Name(name));
    lemma_close(n, ':');
    let a = n + one(none(), delim(':'));
    lemma_spaced(a, sp(), type_pieces(t));
    assert(none() + name =~= name);
    assert(flatten(a + pad(sp(), type_pieces(t))) =~= name + ": "@ + type_text(t));
    assert(kinds(a + pad(sp(), type_pieces(t))) =~= seq![SpecTokenType::Name(name), delim(':')]
        + type_tokens(t));
}

/// The pieces of a list of parameters lay out its text, and are its
/// tokens.
proof fn lemma_params_printed(params: Seq<(Seq<char>, SpecType)>, i: int)
    requires
        forall|j: int| 0 <= j < params.len() ==> writable((#[trigger] params[j]).1),
        forall|j: int| 0 <= j < params.len() ==> is_name((#[trigger] params[j]).0),
        0 <= i <= params.len(),
    ensures
        flatten(param_pieces(params, i)) == join(
            param_texts(params).subrange(i, params.len() as int),
            ", "@,
        ),
        kinds(param_pieces(params, i)) == param_tokens(params, i),
        sound(param_pieces(params, i)),
        flat(param_pieces(params, i)),
        i < params.len() ==> param_pieces(params, i).len() > 0 && param_pieces(
            params,
            i,
        )[0].gap.len() == 0,
    decreases params.len() - i,
{
    let parts = param_texts(params).subrange(i, params.len() as int);
    if i == params.len() {
        assert(parts =~= Seq::<Seq<char>>::empty());
        assert(kinds(param_pieces(params, i)) =~= Seq::<SpecTokenType>::empty());
    } else {
        let name = params[i].0;
        let t = params[i].1;
        lemma_param_printed(name, t);
        let a = one(none(), SpecTokenType::Name(name)) + one(none(), delim(':')) + pad(
            sp(),
            type_pieces(t),
        );
        lemma_join_front(parts, ", "@);
        assert(parts[0] == name + ": "@ + type_text(t));
        if i + 1 < params.len() {
            lemma_params_printed(params, i + 1);
            assert(parts.drop_first() =~= param_texts(params).subrange(
                i + 1,
                params.len() as int,
            ));
            lemma_close(a, ',');
            let b = a + one(none(), delim(','));
            lemma_spaced(b, sp(), param_pieces(params, i + 1));
            reveal_strlit(", ");
            assert(flatten(b) + sp() + flatten(param_pieces(params, i + 1)) =~= parts[0] + ", "@
                + join(parts.drop_first(), ", "@));
            assert(kinds(b) + kinds(param_pieces(params, i + 1)) =~= seq![
                SpecTokenType::Name(name),
                delim(':'),
            ] + type_tokens(t) + seq![delim(',')] + param_tokens(params, i + 1));
        }
    }
}

/// The head of a function, printed: `fn`, the name, and the parameters
/// in their parentheses.
#[verifier::rlimit(50)]
proof fn lemma_header_printed(f: SpecFunction)
    requires
        canon_function(f),
        legible_function(f),
    ensures
        ({
            let all = one(none(), SpecTokenType::Keyword(Keyword::Func)) + one(
                sp(),
                SpecTokenType::Name(f.name),
            ) + (one(none(), delim('(')) + param_pieces(f.args, 0) + one(none(), delim(')')));
            &&& sound(all)
            &&& flat(all)
            &&& all.len() > 0
            &&& all[0].gap.len() == 0
            &&& flatten(all) == "fn "@ + f.name + "("@ + join(param_texts(f.args), ", "@) + ")"@
            &&& kinds(all) == seq![
                SpecTokenType::Keyword(Keyword::Func),
                SpecTokenType::Name(f.name),
                delim('('),
            ] + param_tokens(f.args, 0) + seq![delim(')')]
        }),
{
    reveal_strlit("fn ");
    reveal_strlit("(");
    reveal_strlit(")");
    let key = one(none(), SpecTokenType::Keyword(Keyword::Func));
    lemma_one(none(), SpecTokenType::Keyword(Keyword::Func));
    lemma_one(none(), SpecTokenType::Name(f.name));
    lemma_spaced(key, sp(), one(none(), SpecTokenType::Name(f.name)));
    assert(pad(sp(), one(none(), SpecTokenType::Name(f.name))) =~= one(
        sp(),
        SpecTokenType::Name(f.name),
    )) by {
        assert(sp() + none() =~= sp());
    }
    let a = key + one(sp(), SpecTokenType::Name(f.name));
    lemma_params_printed(f.args, 0);
    lemma_bracketed('(', param_pieces(f.args, 0), ')');
    let b = one(none(), delim('(')) + param_pieces(f.args, 0) + one(none(), delim(')'));
    crate::roundtrip::pieces::lemma_delim_apart(a.last().kind, '(');
    assert(b[0].text[0] == '(') by {
        crate::roundtrip::printed::lemma_delim_legible('(');
        assert(one(none(), delim('('))[0].text == seq!['(']);
        assert(b[0] == one(none(), delim('('))[0]);
    }
    lemma_glue(a, b);
    assert(param_texts(f.args).subrange(0, f.args.len() as int) =~= param_texts(f.args));
    assert(none() + keyword_text(Keyword::Func) =~= keyword_text(Keyword::Func));
    assert(none() + f.name =~= f.name);
    assert(flatten(a) =~= "fn "@ + f.name);
    assert(flatten(a + b) =~= "fn "@ + f.name + "("@ + join(param_texts(f.args), ", "@) + ")"@);
    assert(kinds(a + b) =~= seq![
        SpecTokenType::Keyword(Keyword::Func),
        SpecTokenType::Name(f.name),
        delim('('),
    ] + param_tokens(f.args, 0) + seq![delim(')')]);
}

/// The pieces of a function lay out its text but for the empty line
/// that ends it, and are its tokens.
#[verifier::rlimit(50)]
pub proof fn lemma_function_printed(f: SpecFunction)
    requires
        canon_function(f),
        legible_function(f),
    ensures
        sound(function_pieces(f)),
        flat(function_pieces(f)),
        function_pieces(f).len() > 0,
        function_pieces(f)[0].gap.len() == 0,
        function_pieces(f).last().kind == delim('}'),
        flatten(function_pieces(f)) + seq!['\n', '\n'] == function_text(f),
        kinds(function_pieces(f)) == function_tokens(f),
{
    lemma_header_printed(f);
    let head = one(none(), SpecTokenType::Keyword(Keyword::Func)) + one(
        sp(),
        SpecTokenType::Name(f.name),
    ) + (one(none(), delim('(')) + param_pieces(f.args, 0) + one(none(), delim(')')));
    lemma_signs();
    lemma_one(none(), arrow());
    lemma_spaced(head, sp(), one(none(), arrow()));
    assert(pad(sp(), one(none(), arrow())) =~= one(sp(), arrow())) by {
        assert(sp() + none() =~= sp());
    }
    let a = head + one(sp(), arrow());
    lemma_type_printed(f.ret);
    lemma_spaced(a, sp(), type_pieces(f.ret));
    let b = a + pad(sp(), type_pieces(f.ret));
    lemma_block_printed(f.body);
    lemma_glue(b, block_pieces(f.body));
    reveal_strlit(") -> ");
    reveal_strlit(")");
    reveal_strlit(" {\n");
    reveal_strlit("}");
    reveal_strlit("}\n\n");
    assert(none() + spell(arrow()) =~= spell(arrow()));
    let t1 = "fn "@ + f.name + "("@ + join(param_texts(f.args), ", "@);
    assert(flatten(head) == t1 + ")"@);
    assert(flatten(b) =~= t1 + ") -> "@ + type_text(f.ret));
    let t2 = t1 + ") -> "@ + type_text(f.ret);
    assert(flatten(b + block_pieces(f.body)) == t2 + block_text(f.body));
    assert(t2 + block_text(f.body) + seq!['\n', '\n'] =~= t2 + " {\n"@ + indent(
        sequence_text(f.body),
    ) + "}\n\n"@);
    assert(kinds(b + block_pieces(f.body)) =~= function_tokens(f));
}

/// The text of a program is that of its first function and then that of
/// the rest.
proof fn lemma_program_text_front(f: SpecFunction, rest: Seq<SpecFunction>)
    ensures
        program_text(seq![f] + rest) == function_text(f) + program_text(rest),
    decreases rest.len(),
{
    let all = seq![f] + rest;
    if rest.len() == 0 {
        let empty = Seq::<SpecFunction>::empty();
        assert(all.drop_last() =~= empty);
        assert(rest =~= empty);
        assert(all.last() == f);
        assert(program_text(empty) =~= Seq::<char>::empty());
        assert(program_text(all) == program_text(all.drop_last()) + function_text(all.last()));
        assert(program_text(all) =~= function_text(f) + program_text(rest));
    } else {
        lemma_program_text_front(f, rest.drop_last());
        assert(all.drop_last() =~= seq![f] + rest.drop_last());
        assert(all.last() == rest.last());
        assert(program_text(all) =~= function_text(f) + program_text(rest));
    }
}

/// The pieces of a program lay out its text but for the empty line that
/// ends it, and are its tokens.
pub proof fn lemma_program_printed(funcs: Seq<SpecFunction>, i: int)
    requires
        canon_program(funcs),
        legible_program(funcs),
        0 <= i < funcs.len(),
    ensures
        sound(program_pieces(funcs, i)),
        flat(program_pieces(funcs, i)),
        program_pieces(funcs, i).len() > 0,
        program_pieces(funcs, i)[0].gap.len() == 0,
        program_pieces(funcs, i).last().kind == delim('}'),
        flatten(program_pieces(funcs, i)) + seq!['\n', '\n'] == program_text(
            funcs.subrange(i, funcs.len() as int),
        ),
        kinds(program_pieces(funcs, i)) == program_tokens(funcs, i),
    decreases funcs.len() - i,
{
    let f = funcs[i];
    lemma_function_printed(f);
    let rest = funcs.subrange(i + 1, funcs.len() as int);
    assert(funcs.subrange(i, funcs.len() as int) =~= seq![f] + rest);
    lemma_program_text_front(f, rest);
    if i + 1 == funcs.len() {
        assert(rest =~= Seq::<SpecFunction>::empty());
        assert(program_text(rest) =~= Seq::<char>::empty());
        assert(function_text(f) + program_text(rest) =~= function_text(f));
        assert(program_tokens(funcs, i + 1) =~= Seq::<SpecTokenType>::empty());
        assert(function_tokens(f) + program_tokens(funcs, i + 1) =~= function_tokens(f));
    } else {
        lemma_program_printed(funcs, i + 1);
        let gap = seq!['\n', '\n'];
        assert(blank(gap));
        lemma_spaced(function_pieces(f), gap, program_pieces(funcs, i + 1));
        let all = function_pieces(f) + pad(gap, program_pieces(funcs, i + 1));
        assert(flatten(all) + gap =~= (flatten(function_pieces(f)) + gap) + (flatten(
            program_pieces(funcs, i + 1),
        ) + gap));
    }
}

} // verus!
