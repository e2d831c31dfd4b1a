//! Tokens: what the scanner hands to the parser.

use vstd::prelude::*;
use crate::text::copy_chars;
use crate::parser::error::{Error, SpecError};

verus! {

/// A reserved word.
#[derive(Debug, Clone, Copy, PartialEq, Eq, Structural)]
pub enum Keyword {
    Let,
    Var,
    If,
    Else,
    True,
    False,
    Func,
    While,
}

/// The keyword that `s` spells, if any.
pub open spec fn spec_keyword(s: Seq<char>) -> Option<Keyword> {
    if s == seq!['l', 'e', 't'] {
        Some(Keyword::Let)
    } else if s == seq!['v', 'a', 'r'] {
        Some(Keyword::Var)
    } else if s == seq!['i', 'f'] {
        Some(Keyword::If)
    } else if s == seq!['e', 'l', 's', 'e'] {
        Some(Keyword::Else)
    } else if s == seq!['t', 'r', 'u', 'e'] {
        Some(Keyword::True)
    } else if s == seq!['f', 'a', 'l', 's', 'e'] {
        Some(Keyword::False)
    } else if s == seq!['f', 'n'] {
        Some(Keyword::Func)
    } else if s == seq!['w', 'h', 'i', 'l', 'e'] {
        Some(Keyword::While)
    } else {
        None
    }
}

impl Keyword {
    /// The keyword that `s` spells, if any.
    pub fn lookup(s: &[char]) -> (r: Option<Keyword>)
        ensures
            r == spec_keyword(s@),
    {
        let n = s.len();
        if n == 3 && s[0] == 'l' && s[1] == 'e' && s[2] == 't' {
            assert(s@ =~= seq!['l', 'e', 't']);
            Some(Keyword::Let)
        } else if n == 3 && s[0] == 'v' && s[1] == 'a' && s[2] == 'r' {
            assert(s@ =~= seq!['v', 'a', 'r']);
            Some(Keyword::Var)
        } else if n == 2 && s[0] == 'i' && s[1] == 'f' {
            assert(s@ =~= seq!['i', 'f']);
            Some(Keyword::If)
        } else if n == 4 && s[0] == 'e' && s[1] == 'l' && s[2] == 's' && s[3] == 'e' {
            assert(s@ =~= seq!['e', 'l', 's', 'e']);
            Some(Keyword::Else)
        } else if n == 4 && s[0] == 't' && s[1] == 'r' && s[2] == 'u' && s[3] == 'e' {
            assert(s@ =~= seq!['t', 'r', 'u', 'e']);
            Some(Keyword::True)
        } else if n == 5 && s[0] == 'f' && s[1] == 'a' && s[2] == 'l' && s[3] == 's' && s[4]
            == 'e' {
            assert(s@ =~= seq!['f', 'a', 'l', 's', 'e']);
            Some(Keyword::False)
        } else if n == 2 && s[0] == 'f' && s[1] == 'n' {
            assert(s@ =~= seq!['f', 'n']);
            Some(Keyword::Func)
        } else if n == 5 && s[0] == 'w' && s[1] == 'h' && s[2] == 'i' && s[3] == 'l' && s[4]
            == 'e' {
            assert(s@ =~= seq!['w', 'h', 'i', 'l', 'e']);
            Some(Keyword::While)
        } else {
            assert(s@ != seq!['l', 'e', 't']) by {
                if s@ == seq!['l', 'e', 't'] {
                    assert(seq!['l', 'e', 't'].len() == 3);
                }
            }
            assert(s@ != seq!['v', 'a', 'r']) by {
                if s@ == seq!['v', 'a', 'r'] {
                    assert(seq!['v', 'a', 'r'].len() == 3);
                }
            }
            assert(s@ != seq!['i', 'f']) by {
                if s@ == seq!['i', 'f'] {
                    assert(seq!['i', 'f'].len() == 2);
                }
            }
            assert(s@ != seq!['e', 'l', 's', 'e']) by {
                if s@ == seq!['e', 'l', 's', 'e'] {
                    assert(seq!['e', 'l', 's', 'e'].len() == 4);
                }
            }
            assert(s@ != seq!['t', 'r', 'u', 'e']) by {
                if s@ == seq!['t', 'r', 'u', 'e'] {
                    assert(seq!['t', 'r', 'u', 'e'].len() == 4);
                }
            }
            assert(s@ != seq!['f', 'a', 'l', 's', 'e']) by {
                if s@ == seq!['f', 'a', 'l', 's', 'e'] {
                    assert(seq!['f', 'a', 'l', 's', 'e'].len() == 5);
                }
            }
            assert(s@ != seq!['f', 'n']) by {
                if s@ == seq!['f', 'n'] {
                    assert(seq!['f', 'n'].len() == 2);
                }
            }
            assert(s@ != seq!['w', 'h', 'i', 'l', 'e']) by {
                if s@ == seq!['w', 'h', 'i', 'l', 'e'] {
                    assert(seq!['w', 'h', 'i', 'l', 'e'].len() == 5);
                }
            }
            None
        }
    }
}

/// A quoted literal.
#[derive(Debug, PartialEq)]
pub enum Literal {
    String(String),
    Char(char),
}

/// The model of a [`Literal`].
pub ghost enum SpecLiteral {
    String(Seq<char>),
    Char(char),
}

impl View for Literal {
    type V = SpecLiteral;

    open spec fn view(&self) -> SpecLiteral {
        match self {
            Literal::String(s) => SpecLiteral::String(s@),
            Literal::Char(c) => SpecLiteral::Char(*c),
        }
    }
}

impl Clone for Literal {
    fn clone(&self) -> (r: Literal)
        ensures
            r@ == self@,
    {
        match self {
            Literal::String(s) => Literal::String(s.clone()),
            Literal::Char(c) => Literal::Char(*c),
        }
    }
}

/// The kind of a token, with what it carries.
#[derive(Debug, PartialEq)]
pub enum TokenType {
    Number(u64),
    Op(Vec<char>),
    Name(String),
    Keyword(Keyword),
    Delim(char),
    Literal(Literal),
    Eof,
}

/// The model of a [`TokenType`].
pub ghost enum SpecTokenType {
    Number(u64),
    Op(Seq<char>),
    Name(Seq<char>),
    Keyword(Keyword),
    Delim(char),
    Literal(SpecLiteral),
    Eof,
}

impl View for TokenType {
    type V = SpecTokenType;

    open spec fn view(&self) -> SpecTokenType {
        match self {
            TokenType::Number(n) => SpecTokenType::Number(*n),
            TokenType::Op(v) => SpecTokenType::Op(v@),
            TokenType::Name(s) => SpecTokenType::Name(s@),
            TokenType::Keyword(k) => SpecTokenType::Keyword(*k),
            TokenType::Delim(c) => SpecTokenType::Delim(*c),
            TokenType::Literal(l) => SpecTokenType::Literal(l@),
            TokenType::Eof => SpecTokenType::Eof,
        }
    }
}

impl Clone for TokenType {
    fn clone(&self) -> (r: TokenType)
        ensures
            r@ == self@,
    {
        match self {
            TokenType::Number(n) => TokenType::Number(*n),
            TokenType::Op(v) => TokenType::Op(copy_chars(v)),
            TokenType::Name(s) => TokenType::Name(s.clone()),
            TokenType::Keyword(k) => TokenType::Keyword(*k),
            TokenType::Delim(c) => TokenType::Delim(*c),
            TokenType::Literal(l) => TokenType::Literal(l.clone()),
            TokenType::Eof => TokenType::Eof,
        }
    }
}

impl TokenType {
    /// The token of this kind that starts at byte `pos` of the source.
    pub fn with_pos(self, pos: usize) -> (r: Token)
        ensures
            r@ == (SpecToken { token: self@, pos }),
    {
        Token { token: self, pos }
    }
}

/// A token and the byte offset in the source at which it starts.
#[derive(Debug)]
pub struct Token {
    pub token: TokenType,
    pub pos: usize,
}

/// The model of a [`Token`].
pub ghost struct SpecToken {
    pub token: SpecTokenType,
    pub pos: usize,
}

impl View for Token {
    type V = SpecToken;

    open spec fn view(&self) -> SpecToken {
        SpecToken { token: self.token@, pos: self.pos }
    }
}

impl Clone for Token {
    fn clone(&self) -> (r: Token)
        ensures
            r@ == self@,
    {
        Token { token: self.token.clone(), pos: self.pos }
    }
}

/// What is expected where a name must stand.
pub open spec fn expected_name() -> Seq<char> {
    "Name(_)"@
}

/// What is expected where a number must stand.
pub open spec fn expected_number() -> Seq<char> {
    "Number(_)"@
}

impl Token {
    /// The name that this token carries; a token of any other kind is
    /// unexpected.
    pub fn name(&self) -> (r: Result<String, Error>)
        ensures
            match self@.token {
                SpecTokenType::Name(n) => r matches Ok(s) && s@ == n,
                _ => r matches Err(e) && e@ == SpecError::UnexpectedToken(expected_name(), self@),
            },
    {
        match &self.token {
            TokenType::Name(name) => Ok(name.clone()),
            _ => Err(Error::UnexpectedToken("Name(_)".to_owned(), self.clone())),
        }
    }

    /// The number that this token carries; a token of any other kind is
    /// unexpected.
    pub fn number(&self) -> (r: Result<u64, Error>)
        ensures
            match self@.token {
                SpecTokenType::Number(n) => r == Ok::<u64, Error>(n),
                _ => r matches Err(e) && e@ == SpecError::UnexpectedToken(
                    expected_number(),
                    self@,
                ),
            },
    {
        match &self.token {
            TokenType::Number(n) => Ok(*n),
            _ => Err(Error::UnexpectedToken("Number(_)".to_owned(), self.clone())),
        }
    }
}

} // verus!
