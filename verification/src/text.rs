//! Characters and strings: classification, conversion between strings and
//! character sequences, and decimal numerals.
//!
//! The classes of ASCII characters are written out here; for a character
//! beyond ASCII the Unicode tables of the standard library decide.

use vstd::prelude::*;

verus! {

/// Whether `char::is_alphabetic` holds of `c`. Only characters beyond ASCII
/// are ever asked about.
pub uninterp spec fn alphabetic(c: char) -> bool;

/// Whether `char::is_numeric` holds of `c`.
pub uninterp spec fn numeric(c: char) -> bool;

/// Whether `char::is_whitespace` holds of `c`.
pub uninterp spec fn whitespace(c: char) -> bool;

/// `char::is_alphabetic` looks its argument up in the Unicode tables that
/// the standard library carries; the contract only names that answer.
pub assume_specification[ char::is_alphabetic ](c: char) -> (r: bool)
    ensures
        r == alphabetic(c),
;

/// `char::is_numeric` looks its argument up in the Unicode tables that the
/// standard library carries; the contract only names that answer.
pub assume_specification[ char::is_numeric ](c: char) -> (r: bool)
    ensures
        r == numeric(c),
;

/// `char::is_whitespace` looks its argument up in the Unicode tables that
/// the standard library carries; the contract only names that answer.
pub assume_specification[ char::is_whitespace ](c: char) -> (r: bool)
    ensures
        r == whitespace(c),
;

/// `String::push` appends one character to the end of the string.
pub assume_specification[ std::string::String::push ](s: &mut std::string::String, c: char)
    ensures
        final(s)@ == old(s)@.push(c),
;

/// Whether `c` is an ASCII character.
pub open spec fn is_ascii(c: char) -> bool {
    (c as u32) < 128
}

/// Whether `c` is a letter: one of the 52 ASCII letters, or a character
/// beyond ASCII that is alphabetic.
pub open spec fn letter(c: char) -> bool {
    if is_ascii(c) {
        ('a' <= c <= 'z') || ('A' <= c <= 'Z')
    } else {
        alphabetic(c)
    }
}

/// Whether `c` is a numeral: one of the ten ASCII digits, or a character
/// beyond ASCII that is numeric.
pub open spec fn numeral(c: char) -> bool {
    if is_ascii(c) {
        '0' <= c <= '9'
    } else {
        numeric(c)
    }
}

/// Whether `c` is blank: a space, a tab, a line feed, a vertical tab, a
/// form feed or a carriage return, or a character beyond ASCII that is
/// whitespace.
pub open spec fn space(c: char) -> bool {
    if is_ascii(c) {
        c == ' ' || ('\t' <= c <= '\r')
    } else {
        whitespace(c)
    }
}

/// Whether `c` is a letter.
pub fn is_letter(c: char) -> (r: bool)
    ensures
        r == letter(c),
{
    if (c as u32) < 128 {
        ('a' <= c && c <= 'z') || ('A' <= c && c <= 'Z')
    } else {
        c.is_alphabetic()
    }
}

/// Whether `c` is a numeral.
pub fn is_numeral(c: char) -> (r: bool)
    ensures
        r == numeral(c),
{
    if (c as u32) < 128 {
        '0' <= c && c <= '9'
    } else {
        c.is_numeric()
    }
}

/// Whether `c` is blank.
pub fn is_space(c: char) -> (r: bool)
    ensures
        r == space(c),
{
    if (c as u32) < 128 {
        c == ' ' || ('\t' <= c && c <= '\r')
    } else {
        c.is_whitespace()
    }
}

/// The characters of a string, in order.
pub fn chars_of(s: &str) -> (v: Vec<char>)
    ensures
        v@ == s@,
{
    let mut v: Vec<char> = Vec::new();
    for c in it: s.chars()
        invariant
            it.seq() == s@,
            v.len() == it.index(),
            forall|j: int| 0 <= j < v.len() ==> v@[j] == it.seq()[j],
    {
        v.push(c);
    }
    assert(v@ =~= s@);
    v
}

/// The string made of the given characters, in order.
pub fn string_of(v: &[char]) -> (s: String)
    ensures
        s@ == v@,
{
    let mut s = String::new();
    let mut i: usize = 0;
    while i < v.len()
        invariant
            0 <= i <= v.len(),
            s@ == v@.take(i as int),
        decreases v.len() - i,
    {
        s.push(v[i]);
        assert(v@.take(i as int).push(v@[i as int]) =~= v@.take(i + 1));
        i += 1;
    }
    assert(v@.take(v.len() as int) =~= v@);
    s
}

/// A copy of a list of characters.
pub fn copy_chars(v: &Vec<char>) -> (r: Vec<char>)
    ensures
        r@ == v@,
{
    let mut r: Vec<char> = Vec::new();
    let mut i: usize = 0;
    while i < v.len()
        invariant
            0 <= i <= v.len(),
            r@ == v@.take(i as int),
        decreases v.len() - i,
    {
        r.push(v[i]);
        assert(v@.take(i as int).push(v@[i as int]) =~= v@.take(i + 1));
        i += 1;
    }
    assert(v@.take(v.len() as int) =~= v@);
    r
}

/// Whether `c` is one of the ten ASCII digits.
pub open spec fn is_digit(c: char) -> bool {
    '0' <= c <= '9'
}

/// The value of an ASCII digit.
pub open spec fn digit_value(c: char) -> nat
    recommends
        is_digit(c),
{
    (c as u32 - '0' as u32) as nat
}

/// Whether every character of `s` is an ASCII digit.
pub open spec fn all_digits(s: Seq<char>) -> bool {
    forall|i: int| 0 <= i < s.len() ==> is_digit(#[trigger] s[i])
}

/// The number that a decimal numeral denotes, most significant digit first.
pub open spec fn decimal_value(s: Seq<char>) -> nat
    decreases s.len(),
{
    if s.len() == 0 {
        0
    } else {
        decimal_value(s.drop_last()) * 10 + digit_value(s.last())
    }
}

/// What reading `s` as a decimal numeral of at most `max` gives: its value
/// when `s` is a non-empty run of ASCII digits that denotes at most `max`.
pub open spec fn spec_parse_decimal(s: Seq<char>, max: nat) -> Option<nat> {
    if s.len() > 0 && all_digits(s) && decimal_value(s) <= max {
        Some(decimal_value(s))
    } else {
        None
    }
}

/// A numeral denotes at least what any of its prefixes denotes.
pub proof fn lemma_decimal_prefix(s: Seq<char>, k: int)
    requires
        0 <= k <= s.len(),
    ensures
        decimal_value(s.take(k)) <= decimal_value(s),
    decreases s.len() - k,
{
    if k == s.len() {
        assert(s.take(k) =~= s);
    } else {
        lemma_decimal_prefix(s, k + 1);
        assert(s.take(k + 1).drop_last() =~= s.take(k));
    }
}

/// Reads a decimal numeral of at most `max`.
pub fn parse_decimal(s: &[char], max: u64) -> (r: Option<u64>)
    ensures
        r matches Some(n) ==> spec_parse_decimal(s@, max as nat) == Some(n as nat),
        r is None ==> spec_parse_decimal(s@, max as nat) is None,
{
    if s.len() == 0 {
        return None;
    }
    let mut acc: u64 = 0;
    let mut i: usize = 0;
    while i < s.len()
        invariant
            0 <= i <= s.len(),
            all_digits(s@.take(i as int)),
            acc == decimal_value(s@.take(i as int)),
            acc <= max,
        decreases s.len() - i,
    {
        let c = s[i];
        proof {
            assert(s@.take(i + 1).drop_last() =~= s@.take(i as int));
            assert(s@.take(i + 1).last() == c);
            lemma_decimal_prefix(s@, i + 1);
        }
        if !('0' <= c && c <= '9') {
            assert(!is_digit(s@[i as int]));
            return None;
        }
        let d: u64 = (c as u32 - '0' as u32) as u64;
        if d > max {
            return None;
        }
        if acc > (max - d) / 10 {
            assert(decimal_value(s@.take(i + 1)) > max) by (nonlinear_arith)
                requires
                    decimal_value(s@.take(i + 1)) == acc * 10 + d,
                    acc > (max - d) / 10,
                    d <= 9,
                    d <= max,
            ;
            return None;
        }
        assert(acc * 10 + d <= max) by (nonlinear_arith)
            requires
                acc <= (max - d) / 10,
                d <= max,
        ;
        acc = acc * 10 + d;
        assert(all_digits(s@.take(i + 1))) by {
            assert forall|j: int| 0 <= j < i + 1 implies is_digit(#[trigger] s@.take(i + 1)[j]) by {
                if j < i {
                    assert(s@.take(i as int)[j] == s@[j]);
                }
            }
        }
        i += 1;
    }
    assert(s@.take(s.len() as int) =~= s@);
    Some(acc)
}

/// The ASCII digit that stands for `d`.
pub open spec fn digit_char(d: nat) -> char
    recommends
        d < 10,
{
    ('0' as u32 + d as u32) as char
}

/// The decimal numeral of `n`, without leading zeros.
pub open spec fn decimal_digits(n: nat) -> Seq<char>
    decreases n,
{
    if n < 10 {
        seq![digit_char(n)]
    } else {
        decimal_digits(n / 10).push(digit_char(n % 10))
    }
}

/// Appends the decimal numeral of `n` to `s`.
pub fn push_decimal(s: &mut String, n: u64)
    ensures
        final(s)@ == old(s)@ + decimal_digits(n as nat),
    decreases n,
{
    if n >= 10 {
        push_decimal(s, n / 10);
    }
    let d: u8 = (n % 10) as u8;
    let c: char = (48u8 + d) as char;
    s.push(c);
    assert(final(s)@ =~= old(s)@ + decimal_digits(n as nat));
}

/// The decimal numeral of `n`.
pub fn format_decimal(n: u64) -> (s: String)
    ensures
        s@ == decimal_digits(n as nat),
{
    let mut s = String::new();
    push_decimal(&mut s, n);
    assert(Seq::<char>::empty() + decimal_digits(n as nat) =~= decimal_digits(n as nat));
    s
}


/// The decimal numeral of a number is a non-empty run of ASCII digits
/// that denotes the number.
pub proof fn lemma_decimal_digits(n: nat)
    ensures
        decimal_digits(n).len() > 0,
        all_digits(decimal_digits(n)),
        decimal_value(decimal_digits(n)) == n,
    decreases n,
{
    if n < 10 {
        let s = seq![digit_char(n)];
        assert(s.drop_last() =~= Seq::<char>::empty());
        assert(decimal_value(s.drop_last()) == 0);
        assert(s.last() == digit_char(n));
    } else {
        lemma_decimal_digits(n / 10);
        let head = decimal_digits(n / 10);
        let s = head.push(digit_char(n % 10));
        assert(s.drop_last() =~= head);
        assert(s.last() == digit_char(n % 10));
        assert forall|i: int| 0 <= i < s.len() implies is_digit(#[trigger] s[i]) by {
            if i < head.len() {
                assert(s[i] == head[i]);
            }
        }
    }
}

/// Reading the decimal numeral of a number gives the number back.
pub proof fn law_decimal_round_trip(n: nat, max: nat)
    requires
        n <= max,
    ensures
        spec_parse_decimal(decimal_digits(n), max) == Some(n),
{
    lemma_decimal_digits(n);
}

} // verus!
