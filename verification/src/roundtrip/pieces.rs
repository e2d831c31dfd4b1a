//! The text of a tree as tokens with blanks between them.

use vstd::prelude::*;
use crate::ast::prettyprint::{escape, escaped, join};
use crate::parser::constants::spec_is_delim;
use crate::parser::tokens::{Keyword, SpecLiteral, SpecTokenType};
use crate::roundtrip::indent::{
    lemma_shift_concat, lemma_shift_one_line, no_return, one_line, shift,
};
use crate::roundtrip::layout::{apart, blank, flatten, keyword_text, kinds, sound, spells, Piece};
use crate::text::decimal_digits;

verus! {

/// How a token of a given kind is written.
pub open spec fn spell(kind: SpecTokenType) -> Seq<char> {
    match kind {
        SpecTokenType::Number(n) => decimal_digits(n as nat),
        SpecTokenType::Op(x) => x,
        SpecTokenType::Name(w) => w,
        SpecTokenType::Keyword(k) => keyword_text(k),
        SpecTokenType::Delim(c) => seq![c],
        SpecTokenType::Literal(SpecLiteral::Char(c)) => seq!['\''] + escape(c) + seq!['\''],
        SpecTokenType::Literal(SpecLiteral::String(s)) => seq!['"'] + escaped(s) + seq!['"'],
        SpecTokenType::Eof => Seq::empty(),
    }
}

/// Whether a token of a given kind can be written so that it reads back.
pub open spec fn legible_kind(kind: SpecTokenType) -> bool {
    spells(spell(kind), kind)
}

/// No blanks.
pub open spec fn none() -> Seq<char> {
    Seq::empty()
}

/// One space.
pub open spec fn sp() -> Seq<char> {
    seq![' ']
}

/// One line feed.
pub open spec fn nl() -> Seq<char> {
    seq!['\n']
}

/// The one piece that is a token of kind `kind` after the blanks `gap`.
pub open spec fn one(gap: Seq<char>, kind: SpecTokenType) -> Seq<Piece> {
    seq![Piece { gap, text: spell(kind), kind }]
}

/// The pieces `ps` after the blanks `gap`.
pub open spec fn pad(gap: Seq<char>, ps: Seq<Piece>) -> Seq<Piece> {
    if ps.len() == 0 {
        ps
    } else {
        ps.update(0, Piece { gap: gap + ps[0].gap, text: ps[0].text, kind: ps[0].kind })
    }
}

/// The pieces `ps` one level deeper: with two spaces after each line feed
/// between them.
pub open spec fn shifted(ps: Seq<Piece>) -> Seq<Piece> {
    Seq::new(
        ps.len(),
        |i: int| Piece { gap: shift(ps[i].gap), text: ps[i].text, kind: ps[i].kind },
    )
}

/// The text of two lists of pieces is the text of each.
pub proof fn lemma_flatten_concat(a: Seq<Piece>, b: Seq<Piece>)
    ensures
        flatten(a + b) == flatten(a) + flatten(b),
    decreases a.len(),
{
    if a.len() == 0 {
        assert(a + b =~= b);
        assert(flatten(a) + flatten(b) =~= flatten(b));
    } else {
        assert((a + b)[0] == a[0]);
        assert((a + b).drop_first() =~= a.drop_first() + b);
        lemma_flatten_concat(a.drop_first(), b);
        assert(flatten(a + b) =~= flatten(a) + flatten(b));
    }
}

/// The text of one piece.
pub proof fn lemma_flatten_one(gap: Seq<char>, kind: SpecTokenType)
    ensures
        flatten(one(gap, kind)) == gap + spell(kind),
{
    let ps = one(gap, kind);
    assert(ps.drop_first() =~= Seq::<Piece>::empty());
    assert(flatten(ps.drop_first()) =~= Seq::<char>::empty());
    assert(flatten(ps) =~= gap + spell(kind));
}

/// The kinds of two lists of pieces are the kinds of each.
pub proof fn lemma_kinds_concat(a: Seq<Piece>, b: Seq<Piece>)
    ensures
        kinds(a + b) == kinds(a) + kinds(b),
{
    assert(kinds(a + b) =~= kinds(a) + kinds(b));
}

/// Padding puts blanks before the text and changes nothing else.
pub proof fn lemma_pad(gap: Seq<char>, ps: Seq<Piece>)
    requires
        ps.len() > 0,
    ensures
        flatten(pad(gap, ps)) == gap + flatten(ps),
        kinds(pad(gap, ps)) == kinds(ps),
        pad(gap, ps).len() == ps.len(),
        pad(gap, ps).last().kind == ps.last().kind,
        blank(gap) && sound(ps) ==> sound(pad(gap, ps)),
        gap.len() > 0 ==> pad(gap, ps)[0].gap.len() > 0,
        pad(gap, ps)[0].text == ps[0].text,
{
    let qs = pad(gap, ps);
    assert(qs.drop_first() =~= ps.drop_first());
    assert(flatten(qs) =~= gap + flatten(ps));
    assert(kinds(qs) =~= kinds(ps));
    if blank(gap) && sound(ps) {
        assert forall|i: int| 0 <= i < qs.len() implies blank((#[trigger] qs[i]).gap) && spells(
            qs[i].text,
            qs[i].kind,
        ) by {
            assert(blank(ps[i].gap));
            if i == 0 {
                assert forall|k: int| 0 <= k < qs[0].gap.len() implies (#[trigger] qs[0].gap[k]
                    == ' ' || qs[0].gap[k] == '\n') by {
                    if k >= gap.len() {
                        assert(qs[0].gap[k] == ps[0].gap[k - gap.len()]);
                    }
                }
            }
        }
        assert forall|i: int| 0 <= i < qs.len() - 1 implies (#[trigger] qs[i + 1]).gap.len() > 0
            || apart(qs[i].kind, qs[i + 1].text[0]) by {
            assert(qs[i + 1] == ps[i + 1]);
            assert(qs[i].kind == ps[i].kind);
        }
    }
}

/// Whether the text of every piece is of one line, without carriage
/// return.
pub open spec fn flat(ps: Seq<Piece>) -> bool {
    forall|i: int| 0 <= i < ps.len() ==> one_line((#[trigger] ps[i]).text) && no_return(ps[i].text)
}

/// Shifting the blanks of pieces shifts their text, and changes nothing
/// else.
pub proof fn lemma_shifted(ps: Seq<Piece>)
    requires
        flat(ps),
    ensures
        flatten(shifted(ps)) == shift(flatten(ps)),
        kinds(shifted(ps)) == kinds(ps),
        shifted(ps).len() == ps.len(),
        sound(ps) ==> sound(shifted(ps)),
        flat(shifted(ps)),
        ps.len() > 0 ==> shifted(ps)[0].text == ps[0].text && shifted(ps).last().kind
            == ps.last().kind && (ps[0].gap.len() == 0 ==> shifted(ps)[0].gap.len() == 0),
    decreases ps.len(),
{
    let qs = shifted(ps);
    assert(kinds(qs) =~= kinds(ps));
    if ps.len() == 0 {
        assert(flatten(ps) =~= Seq::<char>::empty());
        assert(shift(Seq::<char>::empty()) =~= Seq::<char>::empty());
        assert(qs =~= ps);
    } else {
        assert(qs.drop_first() =~= shifted(ps.drop_first()));
        assert(flat(ps.drop_first())) by {
            assert forall|i: int| 0 <= i < ps.drop_first().len() implies one_line(
                (#[trigger] ps.drop_first()[i]).text,
            ) && no_return(ps.drop_first()[i].text) by {
                assert(ps.drop_first()[i] == ps[i + 1]);
            }
        }
        lemma_shifted(ps.drop_first());
        lemma_shift_concat(ps[0].gap + ps[0].text, flatten(ps.drop_first()));
        lemma_shift_concat(ps[0].gap, ps[0].text);
        lemma_shift_one_line(ps[0].text);
        assert(flatten(qs) =~= shift(flatten(ps)));
        assert(shift(Seq::<char>::empty()) =~= Seq::<char>::empty());
    }
    if sound(ps) {
        assert forall|i: int| 0 <= i < qs.len() implies blank((#[trigger] qs[i]).gap) && spells(
            qs[i].text,
            qs[i].kind,
        ) by {
            assert(blank(ps[i].gap));
            lemma_shift_blank(ps[i].gap);
        }
        assert forall|i: int| 0 <= i < qs.len() - 1 implies (#[trigger] qs[i + 1]).gap.len() > 0
            || apart(qs[i].kind, qs[i + 1].text[0]) by {
            assert(ps[i + 1].gap.len() > 0 || apart(ps[i].kind, ps[i + 1].text[0]));
            lemma_shift_blank(ps[i + 1].gap);
        }
    }
}

/// Shifted blanks are blanks, and as many or more.
pub proof fn lemma_shift_blank(gap: Seq<char>)
    requires
        blank(gap),
    ensures
        blank(shift(gap)),
        shift(gap).len() >= gap.len(),
    decreases gap.len(),
{
    if gap.len() > 0 {
        let rest = gap.drop_first();
        assert(blank(rest)) by {
            assert forall|i: int| 0 <= i < rest.len() implies (#[trigger] rest[i] == ' ' || rest[i]
                == '\n') by {
                assert(rest[i] == gap[i + 1]);
            }
        }
        lemma_shift_blank(rest);
        lemma_shift_concat(seq![gap[0]], rest);
        assert(seq![gap[0]] + rest =~= gap);
        let head = shift(seq![gap[0]]);
        assert(head =~= if gap[0] == '\n' {
            seq!['\n', ' ', ' ']
        } else {
            seq![gap[0]]
        }) by {
            reveal_with_fuel(crate::roundtrip::indent::shift_from, 2);
        }
        assert(gap[0] == ' ' || gap[0] == '\n');
        assert forall|i: int| 0 <= i < shift(gap).len() implies (#[trigger] shift(gap)[i] == ' '
            || shift(gap)[i] == '\n') by {
            if i >= head.len() {
                assert(shift(gap)[i] == shift(rest)[i - head.len()]);
            } else {
                assert(shift(gap)[i] == head[i]);
            }
        }
    } else {
        assert(shift(gap) =~= Seq::<char>::empty());
    }
}

/// Two lists of sound pieces make a list of sound pieces, where the last
/// of the first does not run into the first of the second.
pub proof fn lemma_sound_concat(a: Seq<Piece>, b: Seq<Piece>)
    requires
        sound(a),
        sound(b),
        a.len() > 0 && b.len() > 0 ==> b[0].gap.len() > 0 || apart(a.last().kind, b[0].text[0]),
    ensures
        sound(a + b),
{
    let c = a + b;
    assert forall|i: int| 0 <= i < c.len() implies blank((#[trigger] c[i]).gap) && spells(
        c[i].text,
        c[i].kind,
    ) by {
        if i < a.len() {
            assert(c[i] == a[i]);
        } else {
            assert(c[i] == b[i - a.len()]);
        }
    }
    assert forall|i: int| 0 <= i < c.len() - 1 implies (#[trigger] c[i + 1]).gap.len() > 0 || apart(
        c[i].kind,
        c[i + 1].text[0],
    ) by {
        if i + 1 < a.len() {
            assert(c[i] == a[i]);
            assert(c[i + 1] == a[i + 1]);
        } else if i + 1 == a.len() {
            assert(c[i] == a.last());
            assert(c[i + 1] == b[0]);
        } else {
            assert(c[i] == b[i - a.len()]);
            assert(c[i + 1] == b[i - a.len() + 1]);
        }
    }
}

/// Two lists of flat pieces make a list of flat pieces.
pub proof fn lemma_flat_concat(a: Seq<Piece>, b: Seq<Piece>)
    requires
        flat(a),
        flat(b),
    ensures
        flat(a + b),
{
    let c = a + b;
    assert forall|i: int| 0 <= i < c.len() implies one_line((#[trigger] c[i]).text) && no_return(
        c[i].text,
    ) by {
        if i < a.len() {
            assert(c[i] == a[i]);
        } else {
            assert(c[i] == b[i - a.len()]);
        }
    }
}

/// A delimiter is no part of any token before it.
pub proof fn lemma_delim_apart(kind: SpecTokenType, c: char)
    requires
        spec_is_delim(c),
    ensures
        apart(kind, c),
{
}

/// The texts of `parts` from one on, with `sep` between each two, after
/// the first: joining from the front.
pub proof fn lemma_join_front(parts: Seq<Seq<char>>, sep: Seq<char>)
    requires
        parts.len() > 0,
    ensures
        join(parts, sep) == if parts.len() == 1 {
            parts[0]
        } else {
            parts[0] + sep + join(parts.drop_first(), sep)
        },
    decreases parts.len(),
{
    if parts.len() == 2 {
        assert(parts.drop_last().len() == 1);
        assert(parts.drop_first().len() == 1);
        assert(join(parts.drop_last(), sep) == parts[0]);
        assert(join(parts.drop_first(), sep) == parts[1]);
    } else if parts.len() > 2 {
        let front = parts.drop_last();
        lemma_join_front(front, sep);
        let rest = parts.drop_first();
        assert(front.drop_first() =~= rest.drop_last());
        assert(rest.last() == parts.last());
        assert(join(parts, sep) =~= parts[0] + sep + join(rest, sep));
    }
}

} // verus!
