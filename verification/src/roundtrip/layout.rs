//! Text as tokens with blanks between them, and what the scanner reads
//! from such text.

use vstd::prelude::*;
use crate::ast::prettyprint::{escape, escaped};
use crate::parser::constants::{spec_is_delim, spec_is_operator};
use crate::parser::laws::{all_readable, holds, law_char_literal, law_string_literal, readable};
use crate::parser::scanner::{in_run, run_end, scan_token, skip_whitespace, Run};
use crate::parser::stream::{next_end, next_kind, stream_end};
use crate::parser::tokens::{spec_keyword, Keyword, SpecLiteral, SpecTokenType};
use crate::text::{
    decimal_digits, is_digit, law_decimal_round_trip, lemma_decimal_digits, letter, numeral, space,
};

verus! {

/// A token as it stands in a text: the blanks before it, its own text,
/// and its kind.
pub ghost struct Piece {
    pub gap: Seq<char>,
    pub text: Seq<char>,
    pub kind: SpecTokenType,
}

/// The text of a list of pieces.
pub open spec fn flatten(ps: Seq<Piece>) -> Seq<char>
    decreases ps.len(),
{
    if ps.len() == 0 {
        Seq::empty()
    } else {
        ps[0].gap + ps[0].text + flatten(ps.drop_first())
    }
}

/// The kinds of a list of pieces.
pub open spec fn kinds(ps: Seq<Piece>) -> Seq<SpecTokenType> {
    Seq::new(ps.len(), |i: int| ps[i].kind)
}

/// Whether every character of `s` is a space or a line feed.
pub open spec fn blank(s: Seq<char>) -> bool {
    forall|i: int| 0 <= i < s.len() ==> (#[trigger] s[i] == ' ' || s[i] == '\n')
}

/// Whether `w` can be written as a name: what the scanner reads as one.
/// It starts with a letter that is neither a numeral nor blank, goes on
/// with letters, numerals and `_`, and spells no keyword.
pub open spec fn is_name(w: Seq<char>) -> bool {
    &&& w.len() > 0
    &&& letter(w[0])
    &&& !numeral(w[0])
    &&& !space(w[0])
    &&& forall|i: int| 0 <= i < w.len() ==> in_run(Run::Word, #[trigger] w[i])
    &&& spec_keyword(w) is None
}

/// How a keyword is spelled.
pub open spec fn keyword_text(k: Keyword) -> Seq<char> {
    match k {
        Keyword::Let => seq!['l', 'e', 't'],
        Keyword::Var => seq!['v', 'a', 'r'],
        Keyword::If => seq!['i', 'f'],
        Keyword::Else => seq!['e', 'l', 's', 'e'],
        Keyword::True => seq!['t', 'r', 'u', 'e'],
        Keyword::False => seq!['f', 'a', 'l', 's', 'e'],
        Keyword::Func => seq!['f', 'n'],
        Keyword::While => seq!['w', 'h', 'i', 'l', 'e'],
    }
}

/// Whether `text` is how a token of kind `kind` is written.
pub open spec fn spells(text: Seq<char>, kind: SpecTokenType) -> bool {
    match kind {
        SpecTokenType::Number(n) => text == decimal_digits(n as nat),
        SpecTokenType::Op(x) => text == x && x.len() > 0 && forall|i: int|
            0 <= i < x.len() ==> spec_is_operator(#[trigger] x[i]),
        SpecTokenType::Name(w) => text == w && is_name(w),
        SpecTokenType::Keyword(k) => text == keyword_text(k),
        SpecTokenType::Delim(c) => text == seq![c] && spec_is_delim(c),
        SpecTokenType::Literal(SpecLiteral::Char(c)) => text == seq!['\''] + escape(c) + seq!['\'']
            && readable(c),
        SpecTokenType::Literal(SpecLiteral::String(s)) => text == seq!['"'] + escaped(s) + seq![
            '"',
        ] && all_readable(s),
        SpecTokenType::Eof => false,
    }
}

/// Whether the character `c`, right after a token of kind `kind`, is no
/// part of that token.
pub open spec fn apart(kind: SpecTokenType, c: char) -> bool {
    match kind {
        SpecTokenType::Number(_) => !numeral(c),
        SpecTokenType::Op(_) => !spec_is_operator(c),
        SpecTokenType::Name(_) => !in_run(Run::Word, c),
        SpecTokenType::Keyword(_) => !in_run(Run::Word, c),
        _ => true,
    }
}

/// Whether a token of kind `kind` that ends at index `end` of `src` ends
/// there: the source ends, or goes on with a character that is no part of
/// the token.
pub open spec fn ends_at(src: Seq<char>, end: int, kind: SpecTokenType) -> bool {
    end >= src.len() || apart(kind, src[end])
}

/// Blanks are skipped up to the first character that is none.
proof fn lemma_skip(src: Seq<char>, at: int, gap: Seq<char>, next: char)
    requires
        holds(src, at, gap.push(next)),
        blank(gap),
        !space(next),
    ensures
        skip_whitespace(src, at) == at + gap.len(),
    decreases gap.len(),
{
    let text = gap.push(next);
    assert(src[at] == text[0]) by {
        assert(src.subrange(at, at + text.len())[0] == src[at]);
    }
    if gap.len() == 0 {
        assert(text[0] == next);
    } else {
        assert(text[0] == gap[0]);
        assert(space(gap[0]));
        let rest = gap.drop_first();
        assert(rest.push(next) =~= text.drop_first());
        assert(src.subrange(at + 1, at + 1 + rest.push(next).len()) =~= rest.push(next)) by {
            assert forall|k: int| 0 <= k < rest.push(next).len() implies src[at + 1 + k]
                == rest.push(next)[k] by {
                assert(src.subrange(at, at + text.len())[k + 1] == src[at + 1 + k]);
            }
        }
        assert(blank(rest)) by {
            assert forall|i: int| 0 <= i < rest.len() implies (#[trigger] rest[i] == ' ' || rest[i]
                == '\n') by {
                assert(rest[i] == gap[i + 1]);
            }
        }
        lemma_skip(src, at + 1, rest, next);
    }
}

/// A run goes as far as its characters go, where the character after
/// them is none of the run.
proof fn lemma_run(src: Seq<char>, at: int, text: Seq<char>, run: Run)
    requires
        holds(src, at, text),
        forall|i: int| 0 <= i < text.len() ==> in_run(run, #[trigger] text[i]),
        at + text.len() >= src.len() || !in_run(run, src[at + text.len()]),
    ensures
        run_end(src, at, run) == at + text.len(),
    decreases text.len(),
{
    if text.len() > 0 {
        assert(src[at] == text[0]) by {
            assert(src.subrange(at, at + text.len())[0] == src[at]);
        }
        let rest = text.drop_first();
        assert(src.subrange(at + 1, at + 1 + rest.len()) =~= rest) by {
            assert forall|k: int| 0 <= k < rest.len() implies src[at + 1 + k] == rest[k] by {
                assert(src.subrange(at, at + text.len())[k + 1] == src[at + 1 + k]);
            }
        }
        assert forall|i: int| 0 <= i < rest.len() implies in_run(run, #[trigger] rest[i]) by {
            assert(rest[i] == text[i + 1]);
        }
        lemma_run(src, at + 1, rest, run);
    }
}

/// The first character of what spells a token is no blank.
pub proof fn lemma_spells_head(text: Seq<char>, kind: SpecTokenType)
    requires
        spells(text, kind),
    ensures
        text.len() > 0,
        !space(text[0]),
        text[0] != '#',
{
    match kind {
        SpecTokenType::Number(n) => {
            lemma_decimal_digits(n as nat);
            assert(is_digit(text[0]));
        },
        SpecTokenType::Op(x) => {
            assert(spec_is_operator(x[0]));
        },
        SpecTokenType::Name(w) => {},
        SpecTokenType::Keyword(k) => {
            assert(keyword_text(k).len() > 0);
            assert('a' <= keyword_text(k)[0] <= 'z');
        },
        SpecTokenType::Delim(c) => {
            assert(text[0] == c);
        },
        SpecTokenType::Literal(l) => {
            match l {
                SpecLiteral::Char(c) => {
                    assert(text[0] == '\'');
                },
                SpecLiteral::String(s) => {
                    assert(text[0] == '"');
                },
            }
        },
        SpecTokenType::Eof => {},
    }
}

/// A keyword's spelling spells the keyword, in ASCII letters.
proof fn lemma_keyword_text(k: Keyword)
    ensures
        spec_keyword(keyword_text(k)) == Some(k),
        forall|i: int|
            0 <= i < keyword_text(k).len() ==> 'a' <= #[trigger] keyword_text(k)[i] <= 'z',
{
    let all = seq![
        keyword_text(Keyword::Let),
        keyword_text(Keyword::Var),
        keyword_text(Keyword::If),
        keyword_text(Keyword::Else),
        keyword_text(Keyword::True),
        keyword_text(Keyword::False),
        keyword_text(Keyword::Func),
        keyword_text(Keyword::While),
    ];
    let t = keyword_text(k);
    assert(keyword_text(Keyword::Let)[0] == 'l');
    assert(keyword_text(Keyword::Var)[0] == 'v');
    assert(keyword_text(Keyword::If)[0] == 'i');
    assert(keyword_text(Keyword::Else)[0] == 'e');
    assert(keyword_text(Keyword::True)[0] == 't');
    assert(keyword_text(Keyword::False)[0] == 'f');
    assert(keyword_text(Keyword::Func)[0] == 'f');
    assert(keyword_text(Keyword::While)[0] == 'w');
    assert(keyword_text(Keyword::False).len() == 5);
    assert(keyword_text(Keyword::Func).len() == 2);
}

/// A piece of text scans as its token: from any index at which the
/// source holds blanks and then what spells the token, before the end of
/// the source or a character that is no part of the token.
pub proof fn lemma_piece_scans(src: Seq<char>, at: int, p: Piece)
    requires
        holds(src, at, p.gap + p.text),
        blank(p.gap),
        spells(p.text, p.kind),
        ends_at(src, at + p.gap.len() + p.text.len(), p.kind),
    ensures
        next_kind(src, at) == Some(p.kind),
        next_end(src, at) == at + p.gap.len() + p.text.len(),
{
    reveal(scan_token);
    lemma_spells_head(p.text, p.kind);
    let both = p.gap + p.text;
    let j = at + p.gap.len();
    let end = j + p.text.len();
    assert forall|k: int| 0 <= k < both.len() implies src[at + k] == both[k] by {
        assert(src.subrange(at, at + both.len())[k] == src[at + k]);
    }
    assert(src.subrange(at, at + p.gap.push(p.text[0]).len()) =~= p.gap.push(p.text[0])) by {
        assert forall|k: int| 0 <= k < p.gap.len() + 1 implies src[at + k] == p.gap.push(
            p.text[0],
        )[k] by {
            assert(both[k] == p.gap.push(p.text[0])[k]);
        }
    }
    lemma_skip(src, at, p.gap, p.text[0]);
    assert(src.subrange(j, end) =~= p.text) by {
        assert forall|k: int| 0 <= k < p.text.len() implies src[j + k] == p.text[k] by {
            assert(both[p.gap.len() + k] == p.text[k]);
        }
    }
    assert(src[j] == p.text[0]);
    match p.kind {
        SpecTokenType::Number(n) => {
            lemma_decimal_digits(n as nat);
            assert forall|i: int| 0 <= i < p.text.len() implies in_run(
                Run::Digits,
                #[trigger] p.text[i],
            ) by {
                assert(is_digit(p.text[i]));
            }
            lemma_run(src, j, p.text, Run::Digits);
            law_decimal_round_trip(n as nat, u64::MAX as nat);
            assert(is_digit(p.text[0]));
        },
        SpecTokenType::Op(x) => {
            assert forall|i: int| 0 <= i < p.text.len() implies in_run(
                Run::Operator,
                #[trigger] p.text[i],
            ) by {}
            lemma_run(src, j, p.text, Run::Operator);
            assert(spec_is_operator(x[0]));
        },
        SpecTokenType::Name(w) => {
            assert forall|i: int| 0 <= i < p.text.len() implies in_run(
                Run::Word,
                #[trigger] p.text[i],
            ) by {
                assert(in_run(Run::Word, w[i]));
            }
            lemma_run(src, j, p.text, Run::Word);
        },
        SpecTokenType::Keyword(k) => {
            lemma_keyword_text(k);
            assert forall|i: int| 0 <= i < p.text.len() implies in_run(
                Run::Word,
                #[trigger] p.text[i],
            ) by {}
            lemma_run(src, j, p.text, Run::Word);
            assert('a' <= p.text[0] <= 'z');
        },
        SpecTokenType::Delim(c) => {},
        SpecTokenType::Literal(l) => {
            match l {
                SpecLiteral::Char(c) => {
                    law_char_literal(src, j, c);
                    assert(p.text[0] == '\'');
                },
                SpecLiteral::String(s) => {
                    law_string_literal(src, j, s);
                    assert(p.text[0] == '"');
                },
            }
        },
        SpecTokenType::Eof => {},
    }
}

/// Whether every piece of a list is blanks and then what spells its
/// token, and no piece runs into the next.
pub open spec fn sound(ps: Seq<Piece>) -> bool {
    &&& forall|i: int| 0 <= i < ps.len() ==> blank((#[trigger] ps[i]).gap) && spells(
        ps[i].text,
        ps[i].kind,
    )
    &&& forall|i: int|
        0 <= i < ps.len() - 1 ==> (#[trigger] ps[i + 1]).gap.len() > 0 || apart(
            ps[i].kind,
            ps[i + 1].text[0],
        )
}

/// A blank is no part of any token.
proof fn lemma_blank_apart(kind: SpecTokenType, c: char)
    requires
        c == ' ' || c == '\n',
    ensures
        apart(kind, c),
{
}

/// Text made of sound pieces scans as their tokens: from any index at
/// which the source holds the text, before the end of the source or a
/// character that is no part of the last token.
pub proof fn lemma_pieces_scan(src: Seq<char>, at: int, ps: Seq<Piece>)
    requires
        holds(src, at, flatten(ps)),
        sound(ps),
        ps.len() > 0 ==> ends_at(src, at + flatten(ps).len(), ps.last().kind),
    ensures
        stream_end(src, at, kinds(ps)) == Some(at + flatten(ps).len()),
    decreases ps.len(),
{
    if ps.len() == 0 {
        assert(kinds(ps) =~= Seq::<SpecTokenType>::empty());
    } else {
        let p = ps[0];
        let rest = ps.drop_first();
        let head = p.gap + p.text;
        let text = flatten(ps);
        assert(text == head + flatten(rest));
        let mid = at + head.len();
        assert forall|k: int| 0 <= k < text.len() implies src[at + k] == text[k] by {
            assert(src.subrange(at, at + text.len())[k] == src[at + k]);
        }
        assert(src.subrange(at, mid) =~= head) by {
            assert forall|k: int| 0 <= k < head.len() implies src[at + k] == head[k] by {
                assert(text[k] == head[k]);
            }
        }
        assert(src.subrange(mid, mid + flatten(rest).len()) =~= flatten(rest)) by {
            assert forall|k: int| 0 <= k < flatten(rest).len() implies src[mid + k] == flatten(
                rest,
            )[k] by {
                assert(text[head.len() + k] == flatten(rest)[k]);
            }
        }
        lemma_spells_head(p.text, p.kind);
        if rest.len() > 0 {
            let q = rest[0];
            assert(q == ps[1]);
            lemma_spells_head(q.text, q.kind);
            assert(flatten(rest) == q.gap + q.text + flatten(rest.drop_first()));
            if q.gap.len() > 0 {
                assert(src[mid] == q.gap[0]) by {
                    assert(flatten(rest)[0] == q.gap[0]);
                }
                lemma_blank_apart(p.kind, q.gap[0]);
            } else {
                assert(src[mid] == q.text[0]) by {
                    assert(flatten(rest)[0] == q.text[0]);
                }
                assert(ps[0int + 1] == q);
            }
            assert(ends_at(src, mid, p.kind));
        } else {
            assert(flatten(rest) =~= Seq::<char>::empty());
            assert(text =~= head);
        }
        lemma_piece_scans(src, at, p);
        assert(sound(rest)) by {
            assert forall|i: int| 0 <= i < rest.len() implies blank((#[trigger] rest[i]).gap)
                && spells(rest[i].text, rest[i].kind) by {
                assert(rest[i] == ps[i + 1]);
            }
            assert forall|i: int| 0 <= i < rest.len() - 1 implies (#[trigger] rest[i + 1]).gap.len()
                > 0 || apart(rest[i].kind, rest[i + 1].text[0]) by {
                assert(rest[i + 1] == ps[i + 1 + 1]);
                assert(rest[i] == ps[i + 1]);
            }
        }
        if rest.len() > 0 {
            assert(rest.last() == ps.last());
        }
        lemma_pieces_scan(src, mid, rest);
        assert(kinds(ps)[0] == p.kind);
        assert(kinds(ps).drop_first() =~= kinds(rest));
    }
}

} // verus!
