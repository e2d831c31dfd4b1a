//! Indentation, character by character: indenting a text puts two
//! spaces before it and after each of its line feeds, and a line feed after
//! it.

use vstd::prelude::*;
use crate::ast::prettyprint::{indent, indent_from, lemma_line_end, line, line_end};

verus! {

/// The text of `s` from index `i` on, with two spaces after each line
/// feed.
pub open spec fn shift_from(s: Seq<char>, i: int) -> Seq<char>
    decreases s.len() - i,
{
    if !(0 <= i < s.len()) {
        Seq::empty()
    } else if s[i] == '\n' {
        seq!['\n', ' ', ' '] + shift_from(s, i + 1)
    } else {
        seq![s[i]] + shift_from(s, i + 1)
    }
}

/// The text `s` with two spaces after each line feed.
pub open spec fn shift(s: Seq<char>) -> Seq<char> {
    shift_from(s, 0)
}

/// Whether `s` has no line feed.
pub open spec fn one_line(s: Seq<char>) -> bool {
    forall|i: int| 0 <= i < s.len() ==> #[trigger] s[i] != '\n'
}

/// Whether `s` has no carriage return.
pub open spec fn no_return(s: Seq<char>) -> bool {
    forall|i: int| 0 <= i < s.len() ==> #[trigger] s[i] != '\r'
}

/// Shifting from an index only looks at the text from that index on.
proof fn lemma_shift_suffix(a: Seq<char>, b: Seq<char>, i: int)
    requires
        0 <= i <= b.len(),
    ensures
        shift_from(a + b, a.len() + i) == shift_from(b, i),
    decreases b.len() - i,
{
    if i < b.len() {
        assert((a + b)[a.len() + i] == b[i]);
        lemma_shift_suffix(a, b, i + 1);
    }
}

/// Shifting a text made of two is shifting each.
pub proof fn lemma_shift_concat(a: Seq<char>, b: Seq<char>)
    ensures
        shift(a + b) == shift(a) + shift(b),
{
    lemma_shift_concat_from(a, b, 0);
}

/// Shifting a text made of two, from an index in the first.
proof fn lemma_shift_concat_from(a: Seq<char>, b: Seq<char>, i: int)
    requires
        0 <= i <= a.len(),
    ensures
        shift_from(a + b, i) == shift_from(a, i) + shift(b),
    decreases a.len() - i,
{
    if i == a.len() {
        lemma_shift_suffix(a, b, 0);
        assert(shift_from(a, i) =~= Seq::<char>::empty());
        assert(shift_from(a + b, i) =~= shift_from(a, i) + shift(b));
    } else {
        assert((a + b)[i] == a[i]);
        lemma_shift_concat_from(a, b, i + 1);
        if a[i] == '\n' {
            assert(shift_from(a + b, i) =~= shift_from(a, i) + shift(b));
        } else {
            assert(shift_from(a + b, i) =~= shift_from(a, i) + shift(b));
        }
    }
}

/// Shifting a text of one line leaves it as it is.
pub proof fn lemma_shift_one_line(s: Seq<char>)
    requires
        one_line(s),
    ensures
        shift(s) == s,
{
    lemma_shift_line_from(s, 0);
    assert(s.subrange(0, s.len() as int) =~= s);
}

/// Shifting a text of one line, from an index.
proof fn lemma_shift_line_from(s: Seq<char>, i: int)
    requires
        one_line(s),
        0 <= i <= s.len(),
    ensures
        shift_from(s, i) == s.subrange(i, s.len() as int),
    decreases s.len() - i,
{
    if i < s.len() {
        lemma_shift_line_from(s, i + 1);
        assert(seq![s[i]] + s.subrange(i + 1, s.len() as int) =~= s.subrange(i, s.len() as int));
    } else {
        assert(s.subrange(i, s.len() as int) =~= Seq::<char>::empty());
    }
}

/// Shifting from an index goes through the line at that index, and then,
/// after its line feed and two spaces, on.
proof fn lemma_shift_line(s: Seq<char>, i: int)
    requires
        0 <= i <= s.len(),
    ensures
        shift_from(s, i) == s.subrange(i, line_end(s, i)) + if line_end(s, i) < s.len() {
            seq!['\n', ' ', ' '] + shift_from(s, line_end(s, i) + 1)
        } else {
            Seq::<char>::empty()
        },
    decreases s.len() - i,
{
    lemma_line_end(s, i);
    let e = line_end(s, i);
    if i < s.len() && s[i] != '\n' {
        lemma_shift_line(s, i + 1);
        lemma_line_end(s, i + 1);
        assert(seq![s[i]] + s.subrange(i + 1, e) =~= s.subrange(i, e));
        let tail = if e < s.len() {
            seq!['\n', ' ', ' '] + shift_from(s, e + 1)
        } else {
            Seq::<char>::empty()
        };
        assert(seq![s[i]] + (s.subrange(i + 1, e) + tail) =~= s.subrange(i, e) + tail);
    } else {
        assert(s.subrange(i, e) =~= Seq::<char>::empty());
        if i < s.len() {
            assert(shift_from(s, i) =~= Seq::<char>::empty() + (seq!['\n', ' ', ' ']
                + shift_from(s, i + 1)));
        } else {
            assert(shift_from(s, i) =~= Seq::<char>::empty() + Seq::<char>::empty());
        }
    }
}

/// Indenting from the start of a line is two spaces, the shifted text
/// from there on, and a line feed.
proof fn lemma_indent_from(s: Seq<char>, i: int)
    requires
        0 <= i < s.len(),
        no_return(s),
        s.last() != '\n',
    ensures
        indent_from(s, i) == seq![' ', ' '] + shift_from(s, i) + seq!['\n'],
    decreases s.len() - i,
{
    lemma_line_end(s, i);
    lemma_shift_line(s, i);
    let e = line_end(s, i);
    assert(line(s, i, e) == s.subrange(i, e)) by {
        if i < e < s.len() {
            assert(s[e - 1] != '\r');
        }
    }
    if e < s.len() {
        assert(s[e] == '\n') by {
            lemma_line_end_is(s, i);
        }
        assert(e + 1 < s.len()) by {
            if e + 1 == s.len() {
                assert(s.last() == s[e]);
            }
        }
        lemma_indent_from(s, e + 1);
        assert(indent_from(s, i) =~= seq![' ', ' '] + shift_from(s, i) + seq!['\n']);
    } else {
        assert(indent_from(s, e + 1) =~= Seq::<char>::empty());
        assert(indent_from(s, i) =~= seq![' ', ' '] + shift_from(s, i) + seq!['\n']);
    }
}

/// A line ends at a line feed, or at the end of the text.
proof fn lemma_line_end_is(s: Seq<char>, i: int)
    requires
        0 <= i <= s.len(),
    ensures
        line_end(s, i) < s.len() ==> s[line_end(s, i)] == '\n',
    decreases s.len() - i,
{
    if i < s.len() && s[i] != '\n' {
        lemma_line_end_is(s, i + 1);
    }
}

/// Indenting a text that does not end with a line feed is putting two
/// spaces before it and after each of its line feeds, and a line feed after
/// it.
pub proof fn lemma_indent(s: Seq<char>)
    requires
        s.len() > 0,
        no_return(s),
        s.last() != '\n',
    ensures
        indent(s) == seq![' ', ' '] + shift(s) + seq!['\n'],
{
    lemma_indent_from(s, 0);
}

} // verus!
