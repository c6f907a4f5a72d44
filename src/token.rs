//! Tokens: the lexical units that the scanner produces and the parser consumes.
use vstd::prelude::*;
use crate::number::Number;

verus! {

/// The closed set of token kinds.
#[derive(Clone, Copy, Debug, PartialEq, Eq, Structural)]
pub enum TokenType {
    // Single-character tokens.
    LeftParen,
    RightParen,
    LeftBrace,
    RightBrace,
    Comma,
    Dot,
    Minus,
    Plus,
    Semicolon,
    Slash,
    Star,
    // One or two character tokens.
    Bang,
    BangEqual,
    Equal,
    EqualEqual,
    Greater,
    GreaterEqual,
    Less,
    LessEqual,
    // Literals.
    Identifier,
    Str,
    Number,
    // Keywords.
    And,
    Class,
    Else,
    False,
    Fun,
    For,
    If,
    Nil,
    Or,
    Print,
    Return,
    Super,
    This,
    True,
    Var,
    While,
    Eof,
}

/// The kind that a word of letters, digits and underscores scans to:
/// a reserved word names its keyword, any other word is an identifier.
pub open spec fn word_kind(s: Seq<char>) -> TokenType {
    if s == seq!['a', 'n', 'd'] {
        TokenType::And
    } else if s == seq!['c', 'l', 'a', 's', 's'] {
        TokenType::Class
    } else if s == seq!['e', 'l', 's', 'e'] {
        TokenType::Else
    } else if s == seq!['f', 'a', 'l', 's', 'e'] {
        TokenType::False
    } else if s == seq!['f', 'o', 'r'] {
        TokenType::For
    } else if s == seq!['f', 'u', 'n'] {
        TokenType::Fun
    } else if s == seq!['i', 'f'] {
        TokenType::If
    } else if s == seq!['n', 'i', 'l'] {
        TokenType::Nil
    } else if s == seq!['o', 'r'] {
        TokenType::Or
    } else if s == seq!['p', 'r', 'i', 'n', 't'] {
        TokenType::Print
    } else if s == seq!['r', 'e', 't', 'u', 'r', 'n'] {
        TokenType::Return
    } else if s == seq!['s', 'u', 'p', 'e', 'r'] {
        TokenType::Super
    } else if s == seq!['t', 'h', 'i', 's'] {
        TokenType::This
    } else if s == seq!['t', 'r', 'u', 'e'] {
        TokenType::True
    } else if s == seq!['v', 'a', 'r'] {
        TokenType::Var
    } else if s == seq!['w', 'h', 'i', 'l', 'e'] {
        TokenType::While
    } else {
        TokenType::Identifier
    }
}

/// Whether two character slices hold the same characters.
pub fn chars_equal(a: &[char], b: &[char]) -> (r: bool)
    ensures
        r == (a@ == b@),
{
    if a.len() != b.len() {
        return false;
    }
    let mut i: usize = 0;
    while i < a.len()
        invariant
            a@.len() == b@.len(),
            i <= a@.len(),
            a@.subrange(0, i as int) == b@.subrange(0, i as int),
        decreases a@.len() - i,
    {
        if a[i] != b[i] {
            assert(a@[i as int] != b@[i as int]);
            return false;
        }
        assert(a@.subrange(0, i + 1) == a@.subrange(0, i as int).push(a@[i as int]));
        assert(b@.subrange(0, i + 1) == b@.subrange(0, i as int).push(b@[i as int]));
        i = i + 1;
    }
    assert(a@ == a@.subrange(0, a@.len() as int));
    assert(b@ == b@.subrange(0, b@.len() as int));
    true
}

impl TokenType {
    /// The kind of a scanned word, given as its characters.
    pub fn keyword_or_id(s: &[char]) -> (r: TokenType)
        ensures
            r == word_kind(s@),
    {
        if chars_equal(s, &['a', 'n', 'd']) {
            TokenType::And
        } else if chars_equal(s, &['c', 'l', 'a', 's', 's']) {
            TokenType::Class
        } else if chars_equal(s, &['e', 'l', 's', 'e']) {
            TokenType::Else
        } else if chars_equal(s, &['f', 'a', 'l', 's', 'e']) {
            TokenType::False
        } else if chars_equal(s, &['f', 'o', 'r']) {
            TokenType::For
        } else if chars_equal(s, &['f', 'u', 'n']) {
            TokenType::Fun
        } else if chars_equal(s, &['i', 'f']) {
            TokenType::If
        } else if chars_equal(s, &['n', 'i', 'l']) {
            TokenType::Nil
        } else if chars_equal(s, &['o', 'r']) {
            TokenType::Or
        } else if chars_equal(s, &['p', 'r', 'i', 'n', 't']) {
            TokenType::Print
        } else if chars_equal(s, &['r', 'e', 't', 'u', 'r', 'n']) {
            TokenType::Return
        } else if chars_equal(s, &['s', 'u', 'p', 'e', 'r']) {
            TokenType::Super
        } else if chars_equal(s, &['t', 'h', 'i', 's']) {
            TokenType::This
        } else if chars_equal(s, &['t', 'r', 'u', 'e']) {
            TokenType::True
        } else if chars_equal(s, &['v', 'a', 'r']) {
            TokenType::Var
        } else if chars_equal(s, &['w', 'h', 'i', 'l', 'e']) {
            TokenType::While
        } else {
            TokenType::Identifier
        }
    }
}

/// The value that a literal token carries.
#[derive(Debug)]
pub enum Literal {
    Nothing,
    Text(String),
    Num(Number),
}

/// A lexeme with its kind, its literal value and the line it starts on.
#[derive(Debug)]
pub struct Token {
    pub t: TokenType,
    pub lexeme: String,
    pub literal: Literal,
    pub line: u32,
}

impl Token {
    pub fn new(t: TokenType, lexeme: &str, line: u32) -> (r: Token)
        ensures
            r.t == t,
            r.lexeme@ == lexeme@,
            r.literal == Literal::Nothing,
            r.line == line,
    {
        Token { t, lexeme: lexeme.to_owned(), literal: Literal::Nothing, line }
    }
}

/// The mathematical form of a literal value.
pub enum LiteralModel {
    Nothing,
    Text(Seq<char>),
    Num(Number),
}

/// The mathematical form of a token.
pub struct TokenModel {
    pub t: TokenType,
    pub lexeme: Seq<char>,
    pub literal: LiteralModel,
    pub line: u32,
}

impl View for Literal {
    type V = LiteralModel;

    open spec fn view(&self) -> LiteralModel {
        match self {
            Literal::Nothing => LiteralModel::Nothing,
            Literal::Text(s) => LiteralModel::Text(s@),
            Literal::Num(n) => LiteralModel::Num(*n),
        }
    }
}

impl View for Token {
    type V = TokenModel;

    open spec fn view(&self) -> TokenModel {
        TokenModel { t: self.t, lexeme: self.lexeme@, literal: self.literal@, line: self.line }
    }
}

pub open spec fn tokens_view(ts: Seq<Token>) -> Seq<TokenModel> {
    ts.map_values(|t: Token| t@)
}

impl Literal {
    /// A copy of the literal.
    pub fn copy(&self) -> (r: Literal)
        ensures
            r@ == self@,
    {
        match self {
            Literal::Nothing => Literal::Nothing,
            Literal::Text(s) => Literal::Text(s.clone()),
            Literal::Num(n) => Literal::Num(*n),
        }
    }
}

impl Token {
    /// A copy of the token.
    pub fn copy(&self) -> (r: Token)
        ensures
            r@ == self@,
    {
        Token { t: self.t, lexeme: self.lexeme.clone(), literal: self.literal.copy(), line: self.line }
    }
}

} // verus!
