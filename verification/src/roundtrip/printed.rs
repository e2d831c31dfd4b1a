//! What is printed, as pieces: the text of a tree is the text of its
//! pieces, and the kinds of its pieces are its tokens.

use vstd::prelude::*;
use crate::parser::scanner::{in_run, Run};
use crate::ast::prettyprint::{
    escape, escaped, expression_text, expression_texts, indent, join, operator_text,
    sequence_text, type_text, type_texts,
};
use crate::ast::tree::{Operator, SpecExpr, SpecExpression, SpecValue};
use crate::parser::constants::{spec_is_delim, spec_is_operator};
use crate::parser::laws::{all_readable, readable};
use crate::parser::tokens::{spec_keyword, Keyword, SpecLiteral, SpecTokenType};
use crate::roundtrip::canon::{
    canon, canon_all, is_infix, legible, legible_all, lemma_canon_widens, writable, Place,
};
use crate::roundtrip::exprs::{lemma_expr_head, starts};
use crate::roundtrip::indent::{lemma_indent, no_return, one_line};
use crate::roundtrip::layout::{
    apart, blank, flatten, is_name, keyword_text, kinds, sound, spells, Piece,
};
use crate::roundtrip::pieces::{
    flat, legible_kind, lemma_delim_apart, lemma_flat_concat, lemma_flatten_concat,
    lemma_flatten_one, lemma_join_front, lemma_kinds_concat, lemma_pad, lemma_shifted,
    lemma_sound_concat, nl, none, one, pad, shifted, sp, spell,
};
use crate::roundtrip::tokens::{
    arrow, block_tokens, delim, equals, expr_tokens, list_tokens, type_list_tokens, type_tokens,
    value_token, Tokens,
};
use crate::semantics::types::{Size, SpecType};
use crate::text::{decimal_digits, is_digit, lemma_decimal_digits};

verus! {

/// Whether `ps` are the pieces of what is printed as `text` and read as
/// the tokens `toks`: sound pieces, each of one line, the first without
/// blanks before it.
pub open spec fn lays(ps: Seq<Piece>, text: Seq<char>, toks: Tokens) -> bool {
    &&& flatten(ps) == text
    &&& kinds(ps) == toks
    &&& sound(ps)
    &&& flat(ps)
    &&& ps.len() > 0
    &&& ps[0].gap.len() == 0
}

/// What a readable character is printed as is of one line, without
/// carriage return.
proof fn lemma_escape_flat(c: char)
    requires
        readable(c),
    ensures
        one_line(escape(c)),
        no_return(escape(c)),
{
}

/// What a readable string is printed as is of one line, without carriage
/// return.
proof fn lemma_escaped_flat(s: Seq<char>)
    requires
        all_readable(s),
    ensures
        one_line(escaped(s)),
        no_return(escaped(s)),
    decreases s.len(),
{
    if s.len() > 0 {
        assert(all_readable(s.drop_last())) by {
            assert forall|k: int| 0 <= k < s.drop_last().len() implies readable(
                #[trigger] s.drop_last()[k],
            ) by {
                assert(s.drop_last()[k] == s[k]);
            }
        }
        lemma_escaped_flat(s.drop_last());
        lemma_escape_flat(s.last());
        let a = escaped(s.drop_last());
        let b = escape(s.last());
        assert forall|i: int| 0 <= i < (a + b).len() implies #[trigger] (a + b)[i] != '\n' && (a
            + b)[i] != '\r' by {
            if i < a.len() {
                assert((a + b)[i] == a[i]);
            } else {
                assert((a + b)[i] == b[i - a.len()]);
            }
        }
    }
}

/// What spells a token is of one line, without carriage return.
proof fn lemma_spell_flat(kind: SpecTokenType)
    requires
        legible_kind(kind),
    ensures
        one_line(spell(kind)),
        no_return(spell(kind)),
{
    let t = spell(kind);
    match kind {
        SpecTokenType::Number(n) => {
            lemma_decimal_digits(n as nat);
            assert forall|i: int| 0 <= i < t.len() implies #[trigger] t[i] != '\n' && t[i]
                != '\r' by {
                assert(is_digit(t[i]));
            }
        },
        SpecTokenType::Op(x) => {
            assert forall|i: int| 0 <= i < t.len() implies #[trigger] t[i] != '\n' && t[i]
                != '\r' by {
                assert(spec_is_operator(x[i]));
            }
        },
        SpecTokenType::Name(w) => {
            assert forall|i: int| 0 <= i < t.len() implies #[trigger] t[i] != '\n' && t[i]
                != '\r' by {
                assert(in_run(Run::Word, w[i]));
            }
        },
        SpecTokenType::Keyword(k) => {},
        SpecTokenType::Delim(c) => {},
        SpecTokenType::Literal(l) => {
            match l {
                SpecLiteral::Char(c) => {
                    lemma_escape_flat(c);
                    let e = escape(c);
                    assert forall|i: int| 0 <= i < t.len() implies #[trigger] t[i] != '\n' && t[i]
                        != '\r' by {
                        if 1 <= i <= e.len() {
                            assert(t[i] == e[i - 1]);
                        }
                    }
                },
                SpecLiteral::String(s) => {
                    lemma_escaped_flat(s);
                    let e = escaped(s);
                    assert forall|i: int| 0 <= i < t.len() implies #[trigger] t[i] != '\n' && t[i]
                        != '\r' by {
                        if 1 <= i <= e.len() {
                            assert(t[i] == e[i - 1]);
                        }
                    }
                },
            }
        },
        SpecTokenType::Eof => {},
    }
}

/// One piece, of a token that can be written, after blanks.
pub proof fn lemma_one(gap: Seq<char>, kind: SpecTokenType)
    requires
        blank(gap),
        legible_kind(kind),
    ensures
        sound(one(gap, kind)),
        flat(one(gap, kind)),
        flatten(one(gap, kind)) == gap + spell(kind),
        kinds(one(gap, kind)) == seq![kind],
        one(gap, kind).len() == 1,
        one(gap, kind)[0].gap == gap,
        one(gap, kind)[0].text == spell(kind),
        one(gap, kind).last().kind == kind,
{
    lemma_flatten_one(gap, kind);
    lemma_spell_flat(kind);
    assert(kinds(one(gap, kind)) =~= seq![kind]);
}

/// A delimiter can be written.
pub proof fn lemma_delim_legible(c: char)
    requires
        spec_is_delim(c),
    ensures
        legible_kind(delim(c)),
        spell(delim(c)) == seq![c],
{
}

/// Two lists of pieces, one after the other.
pub proof fn lemma_glue(a: Seq<Piece>, b: Seq<Piece>)
    requires
        sound(a),
        flat(a),
        sound(b),
        flat(b),
        a.len() > 0,
        b.len() > 0,
        b[0].gap.len() > 0 || apart(a.last().kind, b[0].text[0]),
    ensures
        sound(a + b),
        flat(a + b),
        flatten(a + b) == flatten(a) + flatten(b),
        kinds(a + b) == kinds(a) + kinds(b),
        (a + b).len() > 0,
        (a + b)[0] == a[0],
        (a + b).last() == b.last(),
{
    lemma_sound_concat(a, b);
    lemma_flat_concat(a, b);
    lemma_flatten_concat(a, b);
    lemma_kinds_concat(a, b);
}

/// A list of pieces and then a delimiter, right after it.
pub proof fn lemma_close(a: Seq<Piece>, c: char)
    requires
        sound(a),
        flat(a),
        a.len() > 0,
        spec_is_delim(c),
    ensures
        sound(a + one(none(), delim(c))),
        flat(a + one(none(), delim(c))),
        flatten(a + one(none(), delim(c))) == flatten(a) + seq![c],
        kinds(a + one(none(), delim(c))) == kinds(a) + seq![delim(c)],
        (a + one(none(), delim(c))).len() > 0,
        (a + one(none(), delim(c)))[0] == a[0],
        (a + one(none(), delim(c))).last().kind == delim(c),
{
    lemma_delim_legible(c);
    lemma_one(none(), delim(c));
    lemma_delim_apart(a.last().kind, c);
    lemma_glue(a, one(none(), delim(c)));
    assert(none() + seq![c] =~= seq![c]);
}

/// A list of pieces and then, after blanks, another.
pub proof fn lemma_spaced(a: Seq<Piece>, gap: Seq<char>, b: Seq<Piece>)
    requires
        sound(a),
        flat(a),
        a.len() > 0,
        sound(b),
        flat(b),
        b.len() > 0,
        blank(gap),
        gap.len() > 0,
    ensures
        sound(a + pad(gap, b)),
        flat(a + pad(gap, b)),
        flatten(a + pad(gap, b)) == flatten(a) + gap + flatten(b),
        kinds(a + pad(gap, b)) == kinds(a) + kinds(b),
        (a + pad(gap, b)).len() > 0,
        (a + pad(gap, b))[0] == a[0],
        (a + pad(gap, b)).last().kind == b.last().kind,
{
    lemma_pad(gap, b);
    let q = pad(gap, b);
    assert(flat(q)) by {
        assert forall|i: int| 0 <= i < q.len() implies one_line((#[trigger] q[i]).text)
            && no_return(q[i].text) by {
            assert(q[i].text == b[i].text);
        }
    }
    lemma_glue(a, q);
    assert(flatten(a) + (gap + flatten(b)) =~= flatten(a) + gap + flatten(b));
}

/// The three named types can be written.
proof fn lemma_type_names()
    ensures
        legible_kind(SpecTokenType::Name(seq!['i', '3', '2'])),
        legible_kind(SpecTokenType::Name(seq!['b', 'o', 'o', 'l'])),
        legible_kind(SpecTokenType::Name(seq!['c', 'h', 'a', 'r'])),
        seq!['i', '3', '2'] == "i32"@,
        seq!['b', 'o', 'o', 'l'] == "bool"@,
        seq!['c', 'h', 'a', 'r'] == "char"@,
{
    reveal_strlit("i32");
    reveal_strlit("bool");
    reveal_strlit("char");
    assert(seq!['i', '3', '2'] =~= "i32"@);
    assert(seq!['b', 'o', 'o', 'l'] =~= "bool"@);
    assert(seq!['c', 'h', 'a', 'r'] =~= "char"@);
    let a = seq!['i', '3', '2'];
    assert(a[0] == 'i' && a[1] == '3' && a[2] == '2');
    assert(spec_keyword(a) is None) by {
        assert(a[1] == '3');
    }
    let b = seq!['b', 'o', 'o', 'l'];
    assert(b[0] == 'b' && b[1] == 'o' && b[2] == 'o' && b[3] == 'l');
    assert(spec_keyword(b) is None) by {
        assert(b[0] == 'b');
    }
    let c = seq!['c', 'h', 'a', 'r'];
    assert(c[0] == 'c' && c[1] == 'h' && c[2] == 'a' && c[3] == 'r');
    assert(spec_keyword(c) is None) by {
        assert(c[0] == 'c');
    }
}

/// The arrow and the equals sign can be written.
pub proof fn lemma_signs()
    ensures
        legible_kind(arrow()),
        legible_kind(equals()),
        spell(arrow()) == seq!['-', '>'],
        spell(equals()) == seq!['='],
{
    let a = seq!['-', '>'];
    assert(a[0] == '-' && a[1] == '>');
    let e = seq!['='];
    assert(e[0] == '=');
}

/// The pieces of the types of `ts` from index `i` on, with a comma and a
/// space between each two.
pub open spec fn type_list_pieces(ts: Seq<SpecType>, i: int) -> Seq<Piece>
    decreases ts, ts.len() - i,
{
    if !(0 <= i < ts.len()) {
        Seq::empty()
    } else if i + 1 == ts.len() {
        type_pieces(ts[i])
    } else {
        type_pieces(ts[i]) + one(none(), delim(',')) + pad(sp(), type_list_pieces(ts, i + 1))
    }
}

/// The pieces of a type.
pub open spec fn type_pieces(t: SpecType) -> Seq<Piece>
    decreases t, 0int,
{
    match t {
        SpecType::Signed(Size::ThirtyTwo) => one(
            none(),
            SpecTokenType::Name(seq!['i', '3', '2']),
        ),
        SpecType::Bool => one(none(), SpecTokenType::Name(seq!['b', 'o', 'o', 'l'])),
        SpecType::Char => one(none(), SpecTokenType::Name(seq!['c', 'h', 'a', 'r'])),
        SpecType::Tuple(ts) => one(none(), delim('(')) + type_list_pieces(ts, 0) + one(
            none(),
            delim(')'),
        ),
        SpecType::Array(item, n) => one(none(), delim('[')) + type_pieces(*item) + one(
            none(),
            delim(';'),
        ) + one(sp(), SpecTokenType::Number(n as u64)) + one(none(), delim(']')),
        SpecType::Function { args, ret } => one(none(), delim('(')) + type_list_pieces(args, 0)
            + one(none(), delim(')')) + one(sp(), arrow()) + pad(sp(), type_pieces(*ret)),
        SpecType::Reference(inner) => Seq::empty(),
        SpecType::Mutable(inner) => Seq::empty(),
    }
}

/// The texts of the types of `ts` from index `i` on, joined.
pub open spec fn type_list_text(ts: Seq<SpecType>, i: int) -> Seq<char> {
    join(type_texts(ts).subrange(i, ts.len() as int), ", "@)
}

/// A list of pieces in brackets: the opening delimiter, the pieces if
/// there are any, the closing delimiter.
pub proof fn lemma_bracketed(open: char, inner: Seq<Piece>, close: char)
    requires
        spec_is_delim(open),
        spec_is_delim(close),
        sound(inner),
        flat(inner),
        inner.len() > 0 ==> inner[0].gap.len() == 0,
    ensures
        ({
            let all = one(none(), delim(open)) + inner + one(none(), delim(close));
            &&& sound(all)
            &&& flat(all)
            &&& flatten(all) == seq![open] + flatten(inner) + seq![close]
            &&& kinds(all) == seq![delim(open)] + kinds(inner) + seq![delim(close)]
            &&& all.len() > 0
            &&& all[0].gap.len() == 0
            &&& all.last().kind == delim(close)
        }),
{
    let first = one(none(), delim(open));
    lemma_delim_legible(open);
    lemma_one(none(), delim(open));
    assert(none() + seq![open] =~= seq![open]);
    if inner.len() == 0 {
        assert(first + inner =~= first);
        lemma_close(first, close);
        assert(flatten(inner) =~= Seq::<char>::empty());
        assert(kinds(inner) =~= Seq::<SpecTokenType>::empty());
        assert(seq![open] + flatten(inner) + seq![close] =~= seq![open] + seq![close]);
        assert(seq![delim(open)] + kinds(inner) + seq![delim(close)] =~= seq![delim(open)]
            + seq![delim(close)]);
    } else {
        lemma_glue(first, inner);
        lemma_close(first + inner, close);
    }
}

/// The pieces of a list of types lay out its text, and are its tokens.
pub proof fn lemma_type_list_printed(ts: Seq<SpecType>, i: int)
    requires
        forall|j: int| 0 <= j < ts.len() ==> writable(#[trigger] ts[j]),
        0 <= i <= ts.len(),
    ensures
        flatten(type_list_pieces(ts, i)) == type_list_text(ts, i),
        kinds(type_list_pieces(ts, i)) == type_list_tokens(ts, i),
        sound(type_list_pieces(ts, i)),
        flat(type_list_pieces(ts, i)),
        i < ts.len() ==> type_list_pieces(ts, i).len() > 0 && type_list_pieces(ts, i)[0].gap.len()
            == 0,
    decreases ts, ts.len() - i,
{
    let parts = type_texts(ts).subrange(i, ts.len() as int);
    if i == ts.len() {
        assert(parts =~= Seq::<Seq<char>>::empty());
        assert(kinds(type_list_pieces(ts, i)) =~= Seq::<SpecTokenType>::empty());
    } else {
        lemma_type_printed(ts[i]);
        lemma_join_front(parts, ", "@);
        assert(parts[0] == type_text(ts[i]));
        if i + 1 < ts.len() {
            lemma_type_list_printed(ts, i + 1);
            assert(parts.drop_first() =~= type_texts(ts).subrange(i + 1, ts.len() as int));
            let a = type_pieces(ts[i]);
            lemma_close(a, ',');
            let b = a + one(none(), delim(','));
            lemma_spaced(b, sp(), type_list_pieces(ts, i + 1));
            reveal_strlit(", ");
            assert(flatten(b) + sp() + flatten(type_list_pieces(ts, i + 1)) =~= type_text(ts[i])
                + ", "@ + type_list_text(ts, i + 1));
            assert(kinds(b) + kinds(type_list_pieces(ts, i + 1)) =~= type_tokens(ts[i]) + seq![
                delim(','),
            ] + type_list_tokens(ts, i + 1));
        }
    }
}

/// A named type, printed.
proof fn lemma_named_type_printed(t: SpecType)
    requires
        t is Signed || t is Bool || t is Char,
    ensures
        lays(type_pieces(t), type_text(t), type_tokens(t)),
{
    lemma_type_names();
    match t {
        SpecType::Signed(Size::ThirtyTwo) => {
            lemma_one(none(), SpecTokenType::Name(seq!['i', '3', '2']));
            assert(none() + seq!['i', '3', '2'] =~= seq!['i', '3', '2']);
        },
        SpecType::Bool => {
            lemma_one(none(), SpecTokenType::Name(seq!['b', 'o', 'o', 'l']));
            assert(none() + seq!['b', 'o', 'o', 'l'] =~= seq!['b', 'o', 'o', 'l']);
        },
        SpecType::Char => {
            lemma_one(none(), SpecTokenType::Name(seq!['c', 'h', 'a', 'r']));
            assert(none() + seq!['c', 'h', 'a', 'r'] =~= seq!['c', 'h', 'a', 'r']);
        },
        _ => {},
    }
}

/// An array type, printed.
#[verifier::rlimit(50)]
proof fn lemma_array_type_printed(t: SpecType)
    requires
        writable(t),
        t is Array,
    ensures
        lays(type_pieces(t), type_text(t), type_tokens(t)),
    decreases t, 0int,
{
    let item = *t->Array_0;
    let n = t->Array_1;
    lemma_type_printed(item);
    lemma_bracketed('[', type_pieces(item), ';');
    let a = one(none(), delim('[')) + type_pieces(item) + one(none(), delim(';'));
    let num = SpecTokenType::Number(n as u64);
    assert(legible_kind(num));
    lemma_one(none(), num);
    lemma_spaced(a, sp(), one(none(), num));
    assert(pad(sp(), one(none(), num)) =~= one(sp(), num)) by {
        assert(sp() + none() =~= sp());
    }
    let b = a + one(sp(), num);
    lemma_close(b, ']');
    reveal_strlit("[");
    reveal_strlit("; ");
    reveal_strlit("]");
    assert(none() + spell(num) =~= spell(num));
    assert((n as u64) as nat == n as nat);
    let t1 = "["@ + type_text(item);
    assert(flatten(a) =~= t1 + seq![';']);
    assert(flatten(b) =~= t1 + "; "@ + decimal_digits(n as nat));
    assert(flatten(b + one(none(), delim(']'))) =~= t1 + "; "@ + decimal_digits(n as nat) + "]"@);
    assert(kinds(a) =~= seq![delim('[')] + type_tokens(item) + seq![delim(';')]);
    assert(kinds(b + one(none(), delim(']'))) =~= type_tokens(t));
}

/// A function type, printed.
#[verifier::rlimit(50)]
proof fn lemma_function_type_printed(t: SpecType)
    requires
        writable(t),
        t is Function,
    ensures
        lays(type_pieces(t), type_text(t), type_tokens(t)),
    decreases t, 0int,
{
    let args = t->args;
    let ret = *t->ret;
    lemma_type_list_printed(args, 0);
    lemma_type_printed(ret);
    lemma_bracketed('(', type_list_pieces(args, 0), ')');
    let a = one(none(), delim('(')) + type_list_pieces(args, 0) + one(none(), delim(')'));
    lemma_signs();
    lemma_one(none(), arrow());
    lemma_spaced(a, sp(), one(none(), arrow()));
    assert(pad(sp(), one(none(), arrow())) =~= one(sp(), arrow())) by {
        assert(sp() + none() =~= sp());
    }
    let b = a + one(sp(), arrow());
    lemma_spaced(b, sp(), type_pieces(ret));
    reveal_strlit("(");
    reveal_strlit(") -> ");
    assert(type_texts(args).subrange(0, args.len() as int) =~= type_texts(args));
    assert(none() + spell(arrow()) =~= spell(arrow()));
    let t1 = "("@ + join(type_texts(args), ", "@);
    assert(flatten(a) =~= t1 + seq![')']);
    assert(flatten(b) =~= t1 + seq![')', ' ', '-', '>']);
    assert(flatten(b + pad(sp(), type_pieces(ret))) =~= t1 + ") -> "@ + type_text(ret));
    assert(kinds(a) =~= seq![delim('(')] + type_list_tokens(args, 0) + seq![delim(')')]);
    assert(kinds(b + pad(sp(), type_pieces(ret))) =~= type_tokens(t));
}

/// The pieces of a type lay out its text, and are its tokens.
#[verifier::rlimit(50)]
pub proof fn lemma_type_printed(t: SpecType)
    requires
        writable(t),
    ensures
        lays(type_pieces(t), type_text(t), type_tokens(t)),
    decreases t, 1int,
{
    match t {
        SpecType::Tuple(ts) => {
            lemma_type_list_printed(ts, 0);
            lemma_bracketed('(', type_list_pieces(ts, 0), ')');
            reveal_strlit("(");
            reveal_strlit(")");
            assert(type_texts(ts).subrange(0, ts.len() as int) =~= type_texts(ts));
            assert(seq!['('] + flatten(type_list_pieces(ts, 0)) + seq![')'] =~= type_text(t));
        },
        SpecType::Array(item, n) => {
            lemma_array_type_printed(t);
        },
        SpecType::Function { args, ret } => {
            lemma_function_type_printed(t);
        },
        SpecType::Reference(_) => {},
        SpecType::Mutable(_) => {},
        _ => {
            lemma_named_type_printed(t);
        },
    }
}

/// The text of sound pieces is not empty, has no carriage return, and
/// does not end with a line feed.
pub proof fn lemma_flatten_shape(ps: Seq<Piece>)
    requires
        sound(ps),
        flat(ps),
        ps.len() > 0,
    ensures
        flatten(ps).len() > 0,
        no_return(flatten(ps)),
        flatten(ps).last() != '\n',
    decreases ps.len(),
{
    let p = ps[0];
    let rest = ps.drop_first();
    let head = p.gap + p.text;
    crate::roundtrip::layout::lemma_spells_head(p.text, p.kind);
    assert(blank(p.gap));
    assert(one_line(p.text) && no_return(p.text));
    assert forall|i: int| 0 <= i < head.len() implies #[trigger] head[i] != '\r' by {
        if i < p.gap.len() {
            assert(head[i] == p.gap[i]);
        } else {
            assert(head[i] == p.text[i - p.gap.len()]);
        }
    }
    assert(head.last() == p.text.last());
    if rest.len() == 0 {
        assert(flatten(rest) =~= Seq::<char>::empty());
        assert(flatten(ps) =~= head);
    } else {
        assert(sound(rest)) by {
            assert forall|i: int| 0 <= i < rest.len() implies blank((#[trigger] rest[i]).gap)
                && spells(rest[i].text, rest[i].kind) by {
                assert(rest[i] == ps[i + 1]);
            }
            assert forall|i: int| 0 <= i < rest.len() - 1 implies (#[trigger] rest[i + 1]).gap.len()
                > 0 || apart(rest[i].kind, rest[i + 1].text[0]) by {
                assert(rest[i + 1] == ps[i + 1 + 1]);
                assert(rest[i] == ps[i + 1]);
            }
        }
        assert(flat(rest)) by {
            assert forall|i: int| 0 <= i < rest.len() implies one_line((#[trigger] rest[i]).text)
                && no_return(rest[i].text) by {
                assert(rest[i] == ps[i + 1]);
            }
        }
        lemma_flatten_shape(rest);
        let tail = flatten(rest);
        assert(flatten(ps) == head + tail);
        assert forall|i: int| 0 <= i < (head + tail).len() implies #[trigger] (head + tail)[i]
            != '\r' by {
            if i < head.len() {
                assert((head + tail)[i] == head[i]);
            } else {
                assert((head + tail)[i] == tail[i - head.len()]);
            }
        }
        assert((head + tail).last() == tail.last());
    }
}

/// The first character of a token that can start an expression is no
/// operator character.
pub proof fn lemma_head_char(p: Piece)
    requires
        spells(p.text, p.kind),
        starts(p.kind),
    ensures
        !spec_is_operator(p.text[0]),
{
    match p.kind {
        SpecTokenType::Number(n) => {
            lemma_decimal_digits(n as nat);
            assert(is_digit(p.text[0]));
        },
        SpecTokenType::Keyword(k) => {
            assert('a' <= keyword_text(k)[0] <= 'z');
        },
        SpecTokenType::Literal(l) => {
            match l {
                SpecLiteral::Char(c) => {
                    assert(p.text[0] == '\'');
                },
                SpecLiteral::String(s) => {
                    assert(p.text[0] == '"');
                },
            }
        },
        SpecTokenType::Delim(c) => {
            assert(p.text[0] == c);
        },
        _ => {},
    }
}

/// An operator that is printed can be written.
pub proof fn lemma_operator_legible(op: Operator)
    requires
        is_infix(op) || op is Not || op is Sub || op is Assign,
    ensures
        legible_kind(SpecTokenType::Op(operator_text(op))),
        spell(SpecTokenType::Op(operator_text(op))) == operator_text(op),
{
    reveal_strlit("+");
    reveal_strlit("-");
    reveal_strlit("*");
    reveal_strlit("/");
    reveal_strlit("=");
    reveal_strlit(">");
    reveal_strlit("<");
    reveal_strlit(">=");
    reveal_strlit("<=");
    reveal_strlit("==");
    reveal_strlit("!=");
    reveal_strlit("&&");
    reveal_strlit("||");
    reveal_strlit("!");
    let t = operator_text(op);
    assert(1 <= t.len() <= 2);
}

/// The pieces of the expressions of `items` from index `i` on, with a
/// comma and a space between each two.
pub open spec fn list_pieces(items: Seq<SpecExpression>, i: int) -> Seq<Piece>
    decreases items, items.len() - i,
{
    if !(0 <= i < items.len()) {
        Seq::empty()
    } else if i + 1 == items.len() {
        expr_pieces(items[i])
    } else {
        expr_pieces(items[i]) + one(none(), delim(',')) + pad(sp(), list_pieces(items, i + 1))
    }
}

/// The pieces of the expressions of `items` from index `i` on, with a
/// `;` and a line feed between each two.
pub open spec fn seq_pieces(items: Seq<SpecExpression>, i: int) -> Seq<Piece>
    decreases items, items.len() - i,
{
    if !(0 <= i < items.len()) {
        Seq::empty()
    } else if i + 1 == items.len() {
        expr_pieces(items[i])
    } else {
        expr_pieces(items[i]) + one(none(), delim(';')) + pad(nl(), seq_pieces(items, i + 1))
    }
}

/// The pieces of a sequence in braces, after a space: its expressions one
/// level deeper, each on lines of its own.
pub open spec fn block_pieces(items: Seq<SpecExpression>) -> Seq<Piece>
    decreases items, items.len() + 1,
{
    one(sp(), delim('{')) + pad(seq!['\n', ' ', ' '], shifted(seq_pieces(items, 0))) + one(
        nl(),
        delim('}'),
    )
}

/// The pieces of an expression.
pub open spec fn expr_pieces(e: SpecExpression) -> Seq<Piece>
    decreases e, 0int,
{
    match e.expr {
        SpecExpr::Value(v) => one(none(), value_token(v)),
        SpecExpr::Reference(name) => one(none(), SpecTokenType::Name(name)),
        SpecExpr::Unary { op, rhs } => match op {
            Operator::TupleIndex(i) => expr_pieces(*rhs) + one(none(), delim('.')) + one(
                none(),
                SpecTokenType::Number(i as u64),
            ),
            _ => one(none(), delim('(')) + one(none(), SpecTokenType::Op(operator_text(op)))
                + expr_pieces(*rhs) + one(none(), delim(')')),
        },
        SpecExpr::Binary { lhs, op, rhs } => match op {
            Operator::Assign => expr_pieces(*lhs) + one(sp(), equals()) + pad(
                sp(),
                expr_pieces(*rhs),
            ),
            Operator::ArrayIndex => expr_pieces(*lhs) + one(none(), delim('[')) + expr_pieces(*rhs)
                + one(none(), delim(']')),
            _ => one(none(), delim('(')) + expr_pieces(*lhs) + one(
                sp(),
                SpecTokenType::Op(operator_text(op)),
            ) + pad(sp(), expr_pieces(*rhs)) + one(none(), delim(')')),
        },
        SpecExpr::Tuple(items) => if items.len() == 1 {
            one(none(), delim('(')) + expr_pieces(items[0]) + one(none(), delim(',')) + one(
                none(),
                delim(')'),
            )
        } else {
            one(none(), delim('(')) + list_pieces(items, 0) + one(none(), delim(')'))
        },
        SpecExpr::Array(items) => one(none(), delim('[')) + list_pieces(items, 0) + one(
            none(),
            delim(']'),
        ),
        SpecExpr::Let { name, value, ty, mutable } => {
            let word = if mutable {
                Keyword::Var
            } else {
                Keyword::Let
            };
            let head = one(none(), SpecTokenType::Keyword(word)) + one(
                sp(),
                SpecTokenType::Name(name),
            );
            match ty {
                Some(t) => head + one(none(), delim(':')) + pad(sp(), type_pieces(t)) + one(
                    sp(),
                    equals(),
                ) + pad(sp(), expr_pieces(*value)),
                None => head + one(sp(), equals()) + pad(sp(), expr_pieces(*value)),
            }
        },
        SpecExpr::If { cond, then_, else_ } => match else_ {
            Some(other) => one(none(), SpecTokenType::Keyword(Keyword::If)) + pad(
                sp(),
                expr_pieces(*cond),
            ) + block_pieces(then_) + one(sp(), SpecTokenType::Keyword(Keyword::Else))
                + block_pieces(other),
            None => one(none(), SpecTokenType::Keyword(Keyword::If)) + pad(
                sp(),
                expr_pieces(*cond),
            ) + block_pieces(then_),
        },
        SpecExpr::Call { func, args } => expr_pieces(*func) + (one(none(), delim('('))
            + list_pieces(args, 0) + one(none(), delim(')'))),
        SpecExpr::While { cond, body } => one(none(), SpecTokenType::Keyword(Keyword::While))
            + pad(sp(), expr_pieces(*cond)) + block_pieces(body),
    }
}

/// The texts of the expressions of `items` from index `i` on, joined
/// with `sep`.
pub open spec fn list_text(items: Seq<SpecExpression>, i: int, sep: Seq<char>) -> Seq<char> {
    join(expression_texts(items).subrange(i, items.len() as int), sep)
}

/// The pieces of a list of expressions lay out its text, and are its
/// tokens.
pub proof fn lemma_list_printed(items: Seq<SpecExpression>, i: int)
    requires
        canon_all(items),
        legible_all(items),
        0 <= i <= items.len(),
    ensures
        flatten(list_pieces(items, i)) == list_text(items, i, ", "@),
        kinds(list_pieces(items, i)) == list_tokens(items, i, ','),
        sound(list_pieces(items, i)),
        flat(list_pieces(items, i)),
        i < items.len() ==> list_pieces(items, i).len() > 0 && list_pieces(items, i)[0].gap.len()
            == 0,
    decreases items, items.len() - i,
{
    let parts = expression_texts(items).subrange(i, items.len() as int);
    if i == items.len() {
        assert(parts =~= Seq::<Seq<char>>::empty());
        assert(kinds(list_pieces(items, i)) =~= Seq::<SpecTokenType>::empty());
    } else {
        lemma_expr_printed(items[i], Place::Whole);
        lemma_join_front(parts, ", "@);
        assert(parts[0] == expression_text(items[i]));
        if i + 1 < items.len() {
            lemma_list_printed(items, i + 1);
            assert(parts.drop_first() =~= expression_texts(items).subrange(
                i + 1,
                items.len() as int,
            ));
            let a = expr_pieces(items[i]);
            lemma_close(a, ',');
            let b = a + one(none(), delim(','));
            lemma_spaced(b, sp(), list_pieces(items, i + 1));
            reveal_strlit(", ");
            assert(flatten(b) + sp() + flatten(list_pieces(items, i + 1)) =~= expression_text(
                items[i],
            ) + ", "@ + list_text(items, i + 1, ", "@));
            assert(kinds(b) + kinds(list_pieces(items, i + 1)) =~= expr_tokens(items[i]) + seq![
                delim(','),
            ] + list_tokens(items, i + 1, ','));
        }
    }
}

/// The pieces of a sequence lay out its text, and are its tokens.
pub proof fn lemma_seq_printed(items: Seq<SpecExpression>, i: int)
    requires
        canon_all(items),
        legible_all(items),
        0 <= i <= items.len(),
    ensures
        flatten(seq_pieces(items, i)) == list_text(items, i, ";\n"@),
        kinds(seq_pieces(items, i)) == list_tokens(items, i, ';'),
        sound(seq_pieces(items, i)),
        flat(seq_pieces(items, i)),
        i < items.len() ==> seq_pieces(items, i).len() > 0 && seq_pieces(items, i)[0].gap.len()
            == 0,
    decreases items, items.len() - i,
{
    let parts = expression_texts(items).subrange(i, items.len() as int);
    if i == items.len() {
        assert(parts =~= Seq::<Seq<char>>::empty());
        assert(kinds(seq_pieces(items, i)) =~= Seq::<SpecTokenType>::empty());
    } else {
        lemma_expr_printed(items[i], Place::Whole);
        lemma_join_front(parts, ";\n"@);
        assert(parts[0] == expression_text(items[i]));
        if i + 1 < items.len() {
            lemma_seq_printed(items, i + 1);
            assert(parts.drop_first() =~= expression_texts(items).subrange(
                i + 1,
                items.len() as int,
            ));
            let a = expr_pieces(items[i]);
            lemma_close(a, ';');
            let b = a + one(none(), delim(';'));
            lemma_spaced(b, nl(), seq_pieces(items, i + 1));
            reveal_strlit(";\n");
            assert(flatten(b) + nl() + flatten(seq_pieces(items, i + 1)) =~= expression_text(
                items[i],
            ) + ";\n"@ + list_text(items, i + 1, ";\n"@));
            assert(kinds(b) + kinds(seq_pieces(items, i + 1)) =~= expr_tokens(items[i]) + seq![
                delim(';'),
            ] + list_tokens(items, i + 1, ';'));
        }
    }
}

/// The text of a sequence in braces, with the space before it.
pub open spec fn block_text(items: Seq<SpecExpression>) -> Seq<char> {
    " {\n"@ + indent(sequence_text(items)) + "}"@
}

/// The pieces of a sequence in braces lay out its text, and are its
/// tokens.
#[verifier::rlimit(50)]
pub proof fn lemma_block_printed(items: Seq<SpecExpression>)
    requires
        canon_all(items),
        legible_all(items),
        items.len() > 0,
    ensures
        flatten(block_pieces(items)) == block_text(items),
        kinds(block_pieces(items)) == block_tokens(items),
        sound(block_pieces(items)),
        flat(block_pieces(items)),
        block_pieces(items).len() > 0,
        block_pieces(items)[0].gap.len() > 0,
        block_pieces(items).last().kind == delim('}'),
    decreases items, items.len() + 1,
{
    lemma_seq_printed(items, 0);
    let inner = seq_pieces(items, 0);
    lemma_flatten_shape(inner);
    lemma_indent(flatten(inner));
    lemma_shifted(inner);
    let deep = shifted(inner);
    let open = one(sp(), delim('{'));
    lemma_delim_legible('{');
    lemma_delim_legible('}');
    lemma_one(sp(), delim('{'));
    let gap = seq!['\n', ' ', ' '];
    assert(blank(gap));
    lemma_spaced(open, gap, deep);
    let a = open + pad(gap, deep);
    lemma_one(nl(), delim('}'));
    lemma_glue(a, one(nl(), delim('}')));
    reveal_strlit(" {\n");
    reveal_strlit("}");
    assert(expression_texts(items).subrange(0, items.len() as int) =~= expression_texts(items));
    assert(flatten(a + one(nl(), delim('}'))) =~= block_text(items));
    assert(kinds(a + one(nl(), delim('}'))) =~= block_tokens(items));
}

/// The pieces of an expression in form lay out its text, and are its
/// tokens.
pub proof fn lemma_expr_printed(e: SpecExpression, place: Place)
    requires
        canon(e, place),
        legible(e),
    ensures
        lays(expr_pieces(e), expression_text(e), expr_tokens(e)),
    decreases e, 2int,
{
    match e.expr {
        SpecExpr::Value(_) => {
            lemma_leaf_printed(e, place);
        },
        SpecExpr::Reference(_) => {
            lemma_leaf_printed(e, place);
        },
        SpecExpr::Unary { op, rhs } => {
            lemma_unary_printed(e, place);
        },
        SpecExpr::Binary { lhs, op, rhs } => {
            lemma_binary_printed(e, place);
        },
        SpecExpr::Tuple(_) => {
            lemma_tuple_printed(e, place);
        },
        SpecExpr::Array(_) => {
            lemma_array_printed(e, place);
        },
        SpecExpr::Let { .. } => {
            lemma_let_printed(e, place);
        },
        SpecExpr::If { .. } => {
            lemma_if_printed(e, place);
        },
        SpecExpr::Call { .. } => {
            lemma_call_printed(e, place);
        },
        SpecExpr::While { .. } => {
            lemma_while_printed(e, place);
        },
    }
}

/// A literal or a name, printed.
proof fn lemma_leaf_printed(e: SpecExpression, place: Place)
    requires
        canon(e, place),
        legible(e),
        e.expr is Value || e.expr is Reference,
    ensures
        lays(expr_pieces(e), expression_text(e), expr_tokens(e)),
{
    reveal_strlit("true");
    reveal_strlit("false");
    match e.expr {
        SpecExpr::Value(v) => {
            let k = value_token(v);
            match v {
                SpecValue::Number(n) => {
                    assert((n as u64) as nat == n as nat);
                },
                SpecValue::Bool(b) => {
                    assert(keyword_text(Keyword::True) =~= "true"@);
                    assert(keyword_text(Keyword::False) =~= "false"@);
                },
                _ => {},
            }
            lemma_one(none(), k);
            assert(none() + spell(k) =~= spell(k));
        },
        SpecExpr::Reference(name) => {
            lemma_one(none(), SpecTokenType::Name(name));
            assert(none() + name =~= name);
        },
        _ => {},
    }
}

/// A tuple index, printed.
#[verifier::rlimit(100)]
proof fn lemma_tuple_index_printed(e: SpecExpression, place: Place)
    requires
        canon(e, place),
        legible(e),
        e.expr matches SpecExpr::Unary { op, .. } && op is TupleIndex,
    ensures
        lays(expr_pieces(e), expression_text(e), expr_tokens(e)),
    decreases e, 0int,
{
    let i = e.expr->Unary_op->TupleIndex_0;
    let rhs = *e.expr->Unary_rhs;
    reveal_strlit(".");
    lemma_expr_printed(rhs, Place::Term);
    let r = expr_pieces(rhs);
    lemma_close(r, '.');
    let a = r + one(none(), delim('.'));
    let num = SpecTokenType::Number(i as u64);
    assert(legible_kind(num));
    lemma_one(none(), num);
    lemma_glue(a, one(none(), num));
    assert(none() + spell(num) =~= spell(num));
    assert((i as u64) as nat == i as nat);
    assert(flatten(a + one(none(), num)) =~= expression_text(e));
    assert(kinds(a + one(none(), num)) =~= expr_tokens(e));
}

/// A prefix operator, printed.
#[verifier::rlimit(100)]
proof fn lemma_prefix_printed(e: SpecExpression, place: Place)
    requires
        canon(e, place),
        legible(e),
        e.expr matches SpecExpr::Unary { op, .. } && !(op is TupleIndex),
    ensures
        lays(expr_pieces(e), expression_text(e), expr_tokens(e)),
    decreases e, 0int,
{
    let op = e.expr->Unary_op;
    let rhs = *e.expr->Unary_rhs;
    reveal_strlit("(");
    reveal_strlit(")");
    lemma_expr_printed(rhs, Place::Operand);
    let r = expr_pieces(rhs);
    lemma_canon_widens(rhs);
    lemma_expr_head(rhs);
    assert(r[0].kind == kinds(r)[0]);
    lemma_head_char(r[0]);
    let open = one(none(), delim('('));
    lemma_delim_legible('(');
    lemma_one(none(), delim('('));
    let sign = SpecTokenType::Op(operator_text(op));
    lemma_operator_legible(op);
    lemma_one(none(), sign);
    lemma_glue(open, one(none(), sign));
    let a = open + one(none(), sign);
    lemma_glue(a, r);
    lemma_close(a + r, ')');
    assert(none() + seq!['('] =~= seq!['(']);
    assert(none() + spell(sign) =~= spell(sign));
    assert(flatten(a + r + one(none(), delim(')'))) =~= expression_text(e));
    assert(kinds(a + r + one(none(), delim(')'))) =~= expr_tokens(e));
}

/// A prefix operator or a tuple index, printed.
proof fn lemma_unary_printed(e: SpecExpression, place: Place)
    requires
        canon(e, place),
        legible(e),
        e.expr is Unary,
    ensures
        lays(expr_pieces(e), expression_text(e), expr_tokens(e)),
    decreases e, 1int,
{
    if e.expr->Unary_op is TupleIndex {
        lemma_tuple_index_printed(e, place);
    } else {
        lemma_prefix_printed(e, place);
    }
}

/// An infix operator, an assignment or an index in brackets, printed.
#[verifier::rlimit(50)]
proof fn lemma_binary_printed(e: SpecExpression, place: Place)
    requires
        canon(e, place),
        legible(e),
        e.expr is Binary,
    ensures
        lays(expr_pieces(e), expression_text(e), expr_tokens(e)),
    decreases e, 0int,
{
    let op = e.expr->Binary_op;
    let lhs = *e.expr->Binary_lhs;
    let rhs = *e.expr->Binary_rhs;
    reveal_strlit("(");
    reveal_strlit(")");
    reveal_strlit(" ");
    reveal_strlit(" = ");
    reveal_strlit("[");
    reveal_strlit("]");
    lemma_expr_printed(lhs, Place::Term);
    let l = expr_pieces(lhs);
    let r = expr_pieces(rhs);
    match op {
        Operator::Assign => {
            lemma_expr_printed(rhs, Place::Whole);
            lemma_signs();
            lemma_one(none(), equals());
            lemma_spaced(l, sp(), one(none(), equals()));
            assert(pad(sp(), one(none(), equals())) =~= one(sp(), equals())) by {
                assert(sp() + none() =~= sp());
            }
            let a = l + one(sp(), equals());
            lemma_spaced(a, sp(), r);
            assert(none() + spell(equals()) =~= spell(equals()));
            assert(flatten(a + pad(sp(), r)) =~= expression_text(e));
            assert(kinds(a + pad(sp(), r)) =~= expr_tokens(e));
        },
        Operator::ArrayIndex => {
            lemma_expr_printed(rhs, Place::Whole);
            lemma_close(l, '[');
            let a = l + one(none(), delim('['));
            lemma_glue(a, r);
            lemma_close(a + r, ']');
            assert(flatten(a + r + one(none(), delim(']'))) =~= expression_text(e));
            assert(kinds(a + r + one(none(), delim(']'))) =~= expr_tokens(e));
        },
        _ => {
            lemma_expr_printed(rhs, Place::Operand);
            let open = one(none(), delim('('));
            lemma_delim_legible('(');
            lemma_one(none(), delim('('));
            lemma_glue(open, l);
            let a = open + l;
            let sign = SpecTokenType::Op(operator_text(op));
            lemma_operator_legible(op);
            lemma_one(none(), sign);
            lemma_spaced(a, sp(), one(none(), sign));
            assert(pad(sp(), one(none(), sign)) =~= one(sp(), sign)) by {
                assert(sp() + none() =~= sp());
            }
            let b = a + one(sp(), sign);
            lemma_spaced(b, sp(), r);
            let c = b + pad(sp(), r);
            lemma_close(c, ')');
            assert(none() + seq!['('] =~= seq!['(']);
            assert(none() + spell(sign) =~= spell(sign));
            assert(flatten(c + one(none(), delim(')'))) =~= expression_text(e));
            assert(kinds(c + one(none(), delim(')'))) =~= expr_tokens(e));
        },
    }
}

/// A tuple of one item, printed.
#[verifier::rlimit(50)]
proof fn lemma_single_printed(e: SpecExpression, place: Place)
    requires
        canon(e, place),
        legible(e),
        e.expr matches SpecExpr::Tuple(items) && items.len() == 1,
    ensures
        lays(expr_pieces(e), expression_text(e), expr_tokens(e)),
    decreases e, 0int,
{
    let items = e.expr->Tuple_0;
    reveal_strlit("(");
    reveal_strlit(",)");
    lemma_expr_printed(items[0], Place::Whole);
    let x = expr_pieces(items[0]);
    let open = one(none(), delim('('));
    lemma_delim_legible('(');
    lemma_one(none(), delim('('));
    lemma_glue(open, x);
    let a = open + x;
    assert(none() + seq!['('] =~= seq!['(']);
    assert(flatten(a) == seq!['('] + expression_text(items[0]));
    lemma_close(a, ',');
    let b = a + one(none(), delim(','));
    lemma_close(b, ')');
    assert(flatten(b + one(none(), delim(')'))) =~= "("@ + expression_text(items[0]) + ",)"@);
    assert(kinds(b + one(none(), delim(')'))) =~= expr_tokens(e));
}

/// A tuple, printed.
#[verifier::rlimit(50)]
proof fn lemma_tuple_printed(e: SpecExpression, place: Place)
    requires
        canon(e, place),
        legible(e),
        e.expr is Tuple,
    ensures
        lays(expr_pieces(e), expression_text(e), expr_tokens(e)),
    decreases e, 1int,
{
    let items = e.expr->Tuple_0;
    if items.len() == 1 {
        lemma_single_printed(e, place);
    } else {
        reveal_strlit("(");
        reveal_strlit(")");
        lemma_list_printed(items, 0);
        lemma_bracketed('(', list_pieces(items, 0), ')');
        assert(expression_texts(items).subrange(0, items.len() as int) =~= expression_texts(
            items,
        ));
        assert(seq!['('] + flatten(list_pieces(items, 0)) + seq![')'] =~= expression_text(e));
    }
}

/// An array literal, printed.
proof fn lemma_array_printed(e: SpecExpression, place: Place)
    requires
        canon(e, place),
        legible(e),
        e.expr is Array,
    ensures
        lays(expr_pieces(e), expression_text(e), expr_tokens(e)),
    decreases e, 0int,
{
    let items = e.expr->Array_0;
    reveal_strlit("[");
    reveal_strlit("]");
    reveal_strlit(", ");
    lemma_list_printed(items, 0);
    lemma_bracketed('[', list_pieces(items, 0), ']');
    assert(expression_texts(items).subrange(0, items.len() as int) =~= expression_texts(items));
    assert(seq!['['] + flatten(list_pieces(items, 0)) + seq![']'] =~= expression_text(e));
}

/// The keyword and the name of a binding, printed.
proof fn lemma_let_head(mutable: bool, name: Seq<char>)
    requires
        is_name(name),
    ensures
        ({
            let word = if mutable {
                Keyword::Var
            } else {
                Keyword::Let
            };
            let head = one(none(), SpecTokenType::Keyword(word)) + one(
                sp(),
                SpecTokenType::Name(name),
            );
            &&& sound(head)
            &&& flat(head)
            &&& head.len() > 0
            &&& head[0].gap.len() == 0
            &&& flatten(head) == (if mutable {
                "var "@
            } else {
                "let "@
            }) + name
            &&& kinds(head) == seq![SpecTokenType::Keyword(word), SpecTokenType::Name(name)]
        }),
{
    let word = if mutable {
        Keyword::Var
    } else {
        Keyword::Let
    };
    reveal_strlit("var ");
    reveal_strlit("let ");
    let key = one(none(), SpecTokenType::Keyword(word));
    lemma_one(none(), SpecTokenType::Keyword(word));
    lemma_one(none(), SpecTokenType::Name(name));
    lemma_spaced(key, sp(), one(none(), SpecTokenType::Name(name)));
    assert(pad(sp(), one(none(), SpecTokenType::Name(name))) =~= one(
        sp(),
        SpecTokenType::Name(name),
    )) by {
        assert(sp() + none() =~= sp());
    }
    let head = key + one(sp(), SpecTokenType::Name(name));
    assert(none() + keyword_text(word) =~= keyword_text(word));
    assert(none() + name =~= name);
    assert(flatten(head) =~= (if mutable {
        "var "@
    } else {
        "let "@
    }) + name);
    assert(kinds(head) =~= seq![SpecTokenType::Keyword(word), SpecTokenType::Name(name)]);
}

/// What follows the name of a binding, printed: the `=` and the value,
/// after `before`.
proof fn lemma_let_tail(before: Seq<Piece>, value: SpecExpression)
    requires
        sound(before),
        flat(before),
        before.len() > 0,
        lays(expr_pieces(value), expression_text(value), expr_tokens(value)),
    ensures
        ({
            let all = before + one(sp(), equals()) + pad(sp(), expr_pieces(value));
            &&& sound(all)
            &&& flat(all)
            &&& all.len() > 0
            &&& all[0] == before[0]
            &&& flatten(all) == flatten(before) + " = "@ + expression_text(value)
            &&& kinds(all) == kinds(before) + seq![equals()] + expr_tokens(value)
        }),
{
    reveal_strlit(" = ");
    let v = expr_pieces(value);
    lemma_signs();
    lemma_one(none(), equals());
    assert(pad(sp(), one(none(), equals())) =~= one(sp(), equals())) by {
        assert(sp() + none() =~= sp());
    }
    assert(none() + spell(equals()) =~= spell(equals()));
    lemma_spaced(before, sp(), one(none(), equals()));
    let c = before + one(sp(), equals());
    lemma_spaced(c, sp(), v);
    assert(flatten(before) + sp() + seq!['='] + sp() + flatten(v) =~= flatten(before) + " = "@
        + expression_text(value));
}

/// A binding, printed.
#[verifier::rlimit(50)]
proof fn lemma_let_printed(e: SpecExpression, place: Place)
    requires
        canon(e, place),
        legible(e),
        e.expr is Let,
    ensures
        lays(expr_pieces(e), expression_text(e), expr_tokens(e)),
    decreases e, 0int,
{
    let name = e.expr->Let_name;
    let value = *e.expr->Let_value;
    let ty = e.expr->Let_ty;
    let mutable = e.expr->Let_mutable;
    let word = if mutable {
        Keyword::Var
    } else {
        Keyword::Let
    };
    lemma_expr_printed(value, Place::Whole);
    lemma_let_head(mutable, name);
    let head = one(none(), SpecTokenType::Keyword(word)) + one(sp(), SpecTokenType::Name(name));
    match ty {
        Some(t) => {
            reveal_strlit(": ");
            lemma_type_printed(t);
            lemma_close(head, ':');
            let a = head + one(none(), delim(':'));
            lemma_spaced(a, sp(), type_pieces(t));
            let b = a + pad(sp(), type_pieces(t));
            assert(flatten(b) =~= flatten(head) + ": "@ + type_text(t));
            lemma_let_tail(b, value);
            assert(kinds(b) =~= kinds(head) + seq![delim(':')] + type_tokens(t));
        },
        None => {
            lemma_let_tail(head, value);
        },
    }
}

/// The keyword, the condition and the first sequence of a conditional or
/// a loop, printed.
proof fn lemma_guarded(word: Keyword, cond: SpecExpression, items: Seq<SpecExpression>)
    requires
        lays(expr_pieces(cond), expression_text(cond), expr_tokens(cond)),
        flatten(block_pieces(items)) == block_text(items),
        kinds(block_pieces(items)) == block_tokens(items),
        sound(block_pieces(items)),
        flat(block_pieces(items)),
        block_pieces(items).len() > 0,
        block_pieces(items)[0].gap.len() > 0,
    ensures
        ({
            let all = one(none(), SpecTokenType::Keyword(word)) + pad(sp(), expr_pieces(cond))
                + block_pieces(items);
            &&& sound(all)
            &&& flat(all)
            &&& all.len() > 0
            &&& all[0].gap.len() == 0
            &&& flatten(all) == keyword_text(word) + sp() + expression_text(cond) + block_text(
                items,
            )
            &&& kinds(all) == seq![SpecTokenType::Keyword(word)] + expr_tokens(cond)
                + block_tokens(items)
        }),
{
    let c = expr_pieces(cond);
    let key = one(none(), SpecTokenType::Keyword(word));
    lemma_one(none(), SpecTokenType::Keyword(word));
    lemma_spaced(key, sp(), c);
    let a = key + pad(sp(), c);
    lemma_glue(a, block_pieces(items));
    assert(none() + keyword_text(word) =~= keyword_text(word));
}

/// A conditional, printed.
#[verifier::rlimit(50)]
proof fn lemma_if_printed(e: SpecExpression, place: Place)
    requires
        canon(e, place),
        legible(e),
        e.expr is If,
    ensures
        lays(expr_pieces(e), expression_text(e), expr_tokens(e)),
    decreases e, 0int,
{
    let cond = *e.expr->If_cond;
    let then_ = e.expr->If_then_;
    let else_ = e.expr->If_else_;
    lemma_expr_printed(cond, Place::Whole);
    lemma_block_printed(then_);
    lemma_guarded(Keyword::If, cond, then_);
    let b = one(none(), SpecTokenType::Keyword(Keyword::If)) + pad(sp(), expr_pieces(cond))
        + block_pieces(then_);
    reveal_strlit("if ");
    assert(keyword_text(Keyword::If) + sp() =~= "if "@);
    let front = "if "@ + expression_text(cond) + block_text(then_);
    assert(flatten(b) =~= front);
    match else_ {
        Some(other) => {
            lemma_block_printed(other);
            lemma_else_printed(b, then_, other);
            reveal_strlit(" {\n");
            reveal_strlit("} else {\n");
            reveal_strlit("}");
            reveal_strlit(" else");
            let t1 = "if "@ + expression_text(cond);
            let i1 = indent(sequence_text(then_));
            let i2 = indent(sequence_text(other));
            assert(front + " else"@ + block_text(other) =~= t1 + " {\n"@ + i1 + "} else {\n"@ + i2
                + "}"@);
        },
        None => {
            reveal_strlit(" {\n");
            reveal_strlit("}");
            assert(front =~= "if "@ + expression_text(cond) + " {\n"@ + indent(
                sequence_text(then_),
            ) + "}"@);
        },
    }
}

/// The `else` of a conditional and its sequence, printed after `before`.
proof fn lemma_else_printed(
    before: Seq<Piece>,
    then_: Seq<SpecExpression>,
    other: Seq<SpecExpression>,
)
    requires
        sound(before),
        flat(before),
        before.len() > 0,
        flatten(block_pieces(other)) == block_text(other),
        kinds(block_pieces(other)) == block_tokens(other),
        sound(block_pieces(other)),
        flat(block_pieces(other)),
        block_pieces(other).len() > 0,
        block_pieces(other)[0].gap.len() > 0,
    ensures
        ({
            let all = before + one(sp(), SpecTokenType::Keyword(Keyword::Else)) + block_pieces(
                other,
            );
            &&& sound(all)
            &&& flat(all)
            &&& all.len() > 0
            &&& all[0] == before[0]
            &&& flatten(all) == flatten(before) + " else"@ + block_text(other)
            &&& kinds(all) == kinds(before) + seq![SpecTokenType::Keyword(Keyword::Else)]
                + block_tokens(other)
        }),
{
    reveal_strlit(" else");
    let word = one(sp(), SpecTokenType::Keyword(Keyword::Else));
    lemma_one(sp(), SpecTokenType::Keyword(Keyword::Else));
    lemma_glue(before, word);
    lemma_glue(before + word, block_pieces(other));
    assert(sp() + keyword_text(Keyword::Else) =~= " else"@);
}

/// A call, printed.
#[verifier::rlimit(50)]
proof fn lemma_call_printed(e: SpecExpression, place: Place)
    requires
        canon(e, place),
        legible(e),
        e.expr is Call,
    ensures
        lays(expr_pieces(e), expression_text(e), expr_tokens(e)),
    decreases e, 0int,
{
    let func = *e.expr->Call_func;
    let args = e.expr->Call_args;
    reveal_strlit("(");
    reveal_strlit(")");
    reveal_strlit(", ");
    lemma_expr_printed(func, Place::Term);
    let f = expr_pieces(func);
    lemma_list_printed(args, 0);
    lemma_bracketed('(', list_pieces(args, 0), ')');
    let b = one(none(), delim('(')) + list_pieces(args, 0) + one(none(), delim(')'));
    lemma_delim_apart(f.last().kind, '(');
    assert(b[0].text[0] == '(') by {
        lemma_delim_legible('(');
        assert(one(none(), delim('('))[0].text == seq!['(']);
        assert(b[0] == one(none(), delim('('))[0]);
    }
    lemma_glue(f, b);
    assert(expression_texts(args).subrange(0, args.len() as int) =~= expression_texts(args));
    assert(flatten(f + b) =~= expression_text(e));
    assert(kinds(f + b) =~= expr_tokens(e));
}

/// A loop, printed.
proof fn lemma_while_printed(e: SpecExpression, place: Place)
    requires
        canon(e, place),
        legible(e),
        e.expr is While,
    ensures
        lays(expr_pieces(e), expression_text(e), expr_tokens(e)),
    decreases e, 0int,
{
    let cond = *e.expr->While_cond;
    let body = e.expr->While_body;
    lemma_expr_printed(cond, Place::Whole);
    lemma_block_printed(body);
    lemma_guarded(Keyword::While, cond, body);
    reveal_strlit("while ");
    reveal_strlit(" {\n");
    reveal_strlit("}");
    assert(keyword_text(Keyword::While) + sp() =~= "while "@);
    assert("while "@ + expression_text(cond) + block_text(body) =~= "while "@ + expression_text(
        cond,
    ) + " {\n"@ + indent(sequence_text(body)) + "}"@);
}

} // verus!
