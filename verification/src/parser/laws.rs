//! What holds of the scanner: the end of the source, and literals that
//! read back as what was written.

use vstd::prelude::*;
use crate::ast::prettyprint::{escape, escaped, operator_text};
use crate::ast::tree::{spec_operator, Operator};
use crate::parser::error::SpecError;
use crate::parser::scanner::{
    byte_offset, lemma_ends, scan_char, scan_string, scan_token, skip_line, skip_whitespace,
    spec_escape, string_body, Run,
};
use crate::parser::tokens::{SpecLiteral, SpecToken, SpecTokenType};

verus! {

/// Once the scanner has given `Eof` it gives `Eof` again, from where it
/// then stands, for ever.
pub proof fn law_eof_repeats(src: Seq<char>, at: int)
    ensures
        scan_token(src, at) matches Ok((tok, end)) ==> (tok.token is Eof ==> scan_token(src, end)
            == scan_token(src, at)),
    decreases src.len() - at,
{
    reveal(scan_token);
    let j = skip_whitespace(src, at);
    if 0 <= at <= src.len() {
        lemma_ends(src, at, Run::Digits);
        if j < src.len() && src[j] != '\n' {
            lemma_ends(src, j, Run::Digits);
            law_eof_repeats(src, skip_line(src, j));
        }
    }
}

/// Whether a character can be read back from the way it is printed inside
/// quotes: a printable ASCII character, a tab, a line feed or a carriage
/// return. Any other is printed by its code, which the scanner does not
/// read.
pub open spec fn readable(c: char) -> bool {
    (0x20 <= c as u32 <= 0x7e) || c == '\t' || c == '\n' || c == '\r'
}

/// Whether every character of `s` is readable.
pub open spec fn all_readable(s: Seq<char>) -> bool {
    forall|k: int| 0 <= k < s.len() ==> readable(#[trigger] s[k])
}

/// Whether `src` holds `text` from index `i` on.
pub open spec fn holds(src: Seq<char>, i: int, text: Seq<char>) -> bool {
    0 <= i && i + text.len() <= src.len() && src.subrange(i, i + text.len()) == text
}

/// What a readable character is printed as: itself, or a backslash and
/// the character that names its escape.
proof fn lemma_escape(c: char)
    requires
        readable(c),
    ensures
        (escape(c) == seq![c] && c != '\\' && c != '"' && c != '\'') || (escape(c).len() == 2
            && escape(c)[0] == '\\' && spec_escape(escape(c)[1]) == Some(c)),
{
}

/// A character literal as it is printed reads back as the character.
pub proof fn law_char_literal(src: Seq<char>, i: int, c: char)
    requires
        readable(c),
        holds(src, i, seq!['\''] + escape(c) + seq!['\'']),
    ensures
        scan_char(src, i) == Ok::<(SpecToken, int), SpecError>(
            (
                SpecToken {
                    token: SpecTokenType::Literal(SpecLiteral::Char(c)),
                    pos: byte_offset(src, i) as usize,
                },
                i + escape(c).len() + 2,
            ),
        ),
{
    let text = seq!['\''] + escape(c) + seq!['\''];
    lemma_escape(c);
    assert forall|k: int| 0 <= k < text.len() implies src[i + k] == text[k] by {
        assert(src.subrange(i, i + text.len())[k] == src[i + k]);
    }
    assert(text[0] == '\'');
    if escape(c) == seq![c] {
        assert(text[1] == c);
        assert(text[2] == '\'');
    } else {
        assert(text[1] == escape(c)[0]);
        assert(text[2] == escape(c)[1]);
        assert(text[3] == '\'');
    }
}

/// The printed form of a string is that of its first character and then
/// that of the rest.
proof fn lemma_escaped_front(c: char, rest: Seq<char>)
    ensures
        escaped(seq![c] + rest) == escape(c) + escaped(rest),
    decreases rest.len(),
{
    let s = seq![c] + rest;
    if rest.len() == 0 {
        assert(s.drop_last() =~= Seq::<char>::empty());
        assert(s.last() == c);
        assert(escaped(s.drop_last()) =~= Seq::<char>::empty());
        assert(escaped(rest) =~= Seq::<char>::empty());
        assert(escaped(s) =~= escape(c) + escaped(rest));
    } else {
        lemma_escaped_front(c, rest.drop_last());
        assert(s.drop_last() =~= seq![c] + rest.drop_last());
        assert(s.last() == rest.last());
        assert(escaped(s) =~= escape(c) + escaped(rest));
    }
}

/// The body of a string literal as it is printed reads back as the
/// string, up to the closing quote.
proof fn lemma_string_body_reads(src: Seq<char>, i: int, acc: Seq<char>, s: Seq<char>, start: usize)
    requires
        all_readable(s),
        holds(src, i, escaped(s) + seq!['"']),
    ensures
        string_body(src, i, acc, start) == Ok::<(Seq<char>, int), SpecError>(
            (acc + s, i + escaped(s).len()),
        ),
    decreases s.len(),
{
    let text = escaped(s) + seq!['"'];
    assert forall|k: int| 0 <= k < text.len() implies src[i + k] == text[k] by {
        assert(src.subrange(i, i + text.len())[k] == src[i + k]);
    }
    if s.len() == 0 {
        assert(escaped(s) =~= Seq::<char>::empty());
        assert(text[0] == '"');
        assert(acc + s =~= acc);
    } else {
        let c = s[0];
        let rest = s.drop_first();
        assert(s =~= seq![c] + rest);
        lemma_escaped_front(c, rest);
        lemma_escape(c);
        let n = escape(c).len() as int;
        assert forall|k: int| 0 <= k < n implies src[i + k] == escape(c)[k] by {
            assert(text[k] == escape(c)[k]);
        }
        let tail = escaped(rest) + seq!['"'];
        assert(src.subrange(i + n, i + n + tail.len()) =~= tail) by {
            assert forall|k: int| 0 <= k < tail.len() implies src[i + n + k] == tail[k] by {
                assert(text[n + k] == tail[k]);
            }
        }
        assert(all_readable(rest)) by {
            assert forall|k: int| 0 <= k < rest.len() implies readable(#[trigger] rest[k]) by {
                assert(rest[k] == s[k + 1]);
            }
        }
        lemma_string_body_reads(src, i + n, acc.push(c), rest, start);
        assert(acc.push(c) + rest =~= acc + s);
    }
}

/// A string literal as it is printed reads back as the string.
pub proof fn law_string_literal(src: Seq<char>, i: int, s: Seq<char>)
    requires
        all_readable(s),
        holds(src, i, seq!['"'] + escaped(s) + seq!['"']),
    ensures
        scan_string(src, i) == Ok::<(SpecToken, int), SpecError>(
            (
                SpecToken {
                    token: SpecTokenType::Literal(SpecLiteral::String(s)),
                    pos: byte_offset(src, i) as usize,
                },
                i + escaped(s).len() + 2,
            ),
        ),
{
    let text = seq!['"'] + escaped(s) + seq!['"'];
    let tail = escaped(s) + seq!['"'];
    assert(src.subrange(i + 1, i + 1 + tail.len()) =~= tail) by {
        assert forall|k: int| 0 <= k < tail.len() implies src[i + 1 + k] == tail[k] by {
            assert(src.subrange(i, i + text.len())[k + 1] == src[i + 1 + k]);
            assert(text[k + 1] == tail[k]);
        }
    }
    lemma_string_body_reads(src, i + 1, Seq::empty(), s, byte_offset(src, i) as usize);
    assert(Seq::<char>::empty() + s =~= s);
}

/// The text of an operator that can be written spells that operator.
pub proof fn law_operator_text(op: Operator)
    requires
        !(op is Ref) && !(op is ArrayIndex) && !(op is TupleIndex),
    ensures
        spec_operator(operator_text(op)) == Some(op),
{
    reveal_strlit("+");
    reveal_strlit("-");
    reveal_strlit("*");
    reveal_strlit("/");
    reveal_strlit("=");
    reveal_strlit(">");
    reveal_strlit("<");
    reveal_strlit(">=");
    reveal_strlit("<=");
    reveal_strlit("==");
    reveal_strlit("!=");
    reveal_strlit("&&");
    reveal_strlit("||");
    reveal_strlit("!");
    let t = operator_text(op);
    assert(1 <= t.len() <= 2);
}

} // verus!
