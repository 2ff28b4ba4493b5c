//! The tokens that the parser reads.

use vstd::prelude::*;
use vstd::std_specs::cmp::PartialEqSpecImpl;

verus! {

/// The lexical kind of a token, with the payload of the three kinds that carry one.
#[derive(Debug, Eq)]
pub enum TokenType {
    /// Number literal.
    Num(i32),
    /// String literal: its decoded contents and its length.
    Str(String, usize),
    /// Identifier.
    Ident(String),
    /// `int`
    Int,
    /// `char`
    Char,
    /// `void`
    Void,
    /// `struct`
    Struct,
    /// `typedef`
    Typedef,
    /// `extern`
    Extern,
    /// `if`
    If,
    /// `else`
    Else,
    /// `for`
    For,
    /// `while`
    While,
    /// `do`
    Do,
    /// `return`
    Return,
    /// `sizeof`
    Sizeof,
    /// `_Alignof`
    Alignof,
    /// `{`
    LeftBrace,
    /// `}`
    RightBrace,
    /// `(`
    LeftParen,
    /// `)`
    RightParen,
    /// `[`
    LeftBracket,
    /// `]`
    RightBracket,
    /// `.`
    Dot,
    /// `->`
    Arrow,
    /// `-`
    Minus,
    /// `*`
    Mul,
    /// `&`
    And,
    /// `!`
    Exclamation,
    /// `/`
    Div,
    /// `%`
    Mod,
    /// `+`
    Plus,
    /// `<<`
    SHL,
    /// `>>`
    SHR,
    /// `<`
    LeftAngleBracket,
    /// `>`
    RightAngleBracket,
    /// `<=`
    LE,
    /// `>=`
    GE,
    /// `==`
    EQ,
    /// `!=`
    NE,
    /// `^`
    Hat,
    /// `|`
    VerticalBar,
    /// `&&`
    Logand,
    /// `||`
    Logor,
    /// `?`
    Question,
    /// `:`
    Colon,
    /// `=`
    Equal,
    /// `,`
    Comma,
    /// `;`
    Semicolon,
}

impl TokenType {
    /// Whether two kinds are the same kind with the same payload; strings are compared by
    /// their characters.
    pub open spec fn same(self, other: TokenType) -> bool {
        match (self, other) {
            (TokenType::Num(a), TokenType::Num(b)) => a == b,
            (TokenType::Str(a, n), TokenType::Str(b, m)) => a@ == b@ && n == m,
            (TokenType::Ident(a), TokenType::Ident(b)) => a@ == b@,
            _ => self == other,
        }
    }
}

impl PartialEq for TokenType {
    fn eq(&self, other: &TokenType) -> (r: bool) {
        match (self, other) {
            (TokenType::Num(a), TokenType::Num(b)) => *a == *b,
            (TokenType::Str(a, n), TokenType::Str(b, m)) => *a == *b && *n == *m,
            (TokenType::Ident(a), TokenType::Ident(b)) => *a == *b,
            (TokenType::Int, TokenType::Int) => true,
            (TokenType::Char, TokenType::Char) => true,
            (TokenType::Void, TokenType::Void) => true,
            (TokenType::Struct, TokenType::Struct) => true,
            (TokenType::Typedef, TokenType::Typedef) => true,
            (TokenType::Extern, TokenType::Extern) => true,
            (TokenType::If, TokenType::If) => true,
            (TokenType::Else, TokenType::Else) => true,
            (TokenType::For, TokenType::For) => true,
            (TokenType::While, TokenType::While) => true,
            (TokenType::Do, TokenType::Do) => true,
            (TokenType::Return, TokenType::Return) => true,
            (TokenType::Sizeof, TokenType::Sizeof) => true,
            (TokenType::Alignof, TokenType::Alignof) => true,
            (TokenType::LeftBrace, TokenType::LeftBrace) => true,
            (TokenType::RightBrace, TokenType::RightBrace) => true,
            (TokenType::LeftParen, TokenType::LeftParen) => true,
            (TokenType::RightParen, TokenType::RightParen) => true,
            (TokenType::LeftBracket, TokenType::LeftBracket) => true,
            (TokenType::RightBracket, TokenType::RightBracket) => true,
            (TokenType::Dot, TokenType::Dot) => true,
            (TokenType::Arrow, TokenType::Arrow) => true,
            (TokenType::Minus, TokenType::Minus) => true,
            (TokenType::Mul, TokenType::Mul) => true,
            (TokenType::And, TokenType::And) => true,
            (TokenType::Exclamation, TokenType::Exclamation) => true,
            (TokenType::Div, TokenType::Div) => true,
            (TokenType::Mod, TokenType::Mod) => true,
            (TokenType::Plus, TokenType::Plus) => true,
            (TokenType::SHL, TokenType::SHL) => true,
            (TokenType::SHR, TokenType::SHR) => true,
            (TokenType::LeftAngleBracket, TokenType::LeftAngleBracket) => true,
            (TokenType::RightAngleBracket, TokenType::RightAngleBracket) => true,
            (TokenType::LE, TokenType::LE) => true,
            (TokenType::GE, TokenType::GE) => true,
            (TokenType::EQ, TokenType::EQ) => true,
            (TokenType::NE, TokenType::NE) => true,
            (TokenType::Hat, TokenType::Hat) => true,
            (TokenType::VerticalBar, TokenType::VerticalBar) => true,
            (TokenType::Logand, TokenType::Logand) => true,
            (TokenType::Logor, TokenType::Logor) => true,
            (TokenType::Question, TokenType::Question) => true,
            (TokenType::Colon, TokenType::Colon) => true,
            (TokenType::Equal, TokenType::Equal) => true,
            (TokenType::Comma, TokenType::Comma) => true,
            (TokenType::Semicolon, TokenType::Semicolon) => true,
            _ => false,
        }
    }
}

impl PartialEqSpecImpl for TokenType {
    open spec fn obeys_eq_spec() -> bool {
        true
    }

    open spec fn eq_spec(&self, other: &TokenType) -> bool {
        self.same(*other)
    }
}

impl Clone for TokenType {
    fn clone(&self) -> (r: TokenType)
        ensures
            r == *self,
    {
        match self {
            TokenType::Num(v) => TokenType::Num(*v),
            TokenType::Str(s, n) => TokenType::Str(s.clone(), *n),
            TokenType::Ident(s) => TokenType::Ident(s.clone()),
            TokenType::Int => TokenType::Int,
            TokenType::Char => TokenType::Char,
            TokenType::Void => TokenType::Void,
            TokenType::Struct => TokenType::Struct,
            TokenType::Typedef => TokenType::Typedef,
            TokenType::Extern => TokenType::Extern,
            TokenType::If => TokenType::If,
            TokenType::Else => TokenType::Else,
            TokenType::For => TokenType::For,
            TokenType::While => TokenType::While,
            TokenType::Do => TokenType::Do,
            TokenType::Return => TokenType::Return,
            TokenType::Sizeof => TokenType::Sizeof,
            TokenType::Alignof => TokenType::Alignof,
            TokenType::LeftBrace => TokenType::LeftBrace,
            TokenType::RightBrace => TokenType::RightBrace,
            TokenType::LeftParen => TokenType::LeftParen,
            TokenType::RightParen => TokenType::RightParen,
            TokenType::LeftBracket => TokenType::LeftBracket,
            TokenType::RightBracket => TokenType::RightBracket,
            TokenType::Dot => TokenType::Dot,
            TokenType::Arrow => TokenType::Arrow,
            TokenType::Minus => TokenType::Minus,
            TokenType::Mul => TokenType::Mul,
            TokenType::And => TokenType::And,
            TokenType::Exclamation => TokenType::Exclamation,
            TokenType::Div => TokenType::Div,
            TokenType::Mod => TokenType::Mod,
            TokenType::Plus => TokenType::Plus,
            TokenType::SHL => TokenType::SHL,
            TokenType::SHR => TokenType::SHR,
            TokenType::LeftAngleBracket => TokenType::LeftAngleBracket,
            TokenType::RightAngleBracket => TokenType::RightAngleBracket,
            TokenType::LE => TokenType::LE,
            TokenType::GE => TokenType::GE,
            TokenType::EQ => TokenType::EQ,
            TokenType::NE => TokenType::NE,
            TokenType::Hat => TokenType::Hat,
            TokenType::VerticalBar => TokenType::VerticalBar,
            TokenType::Logand => TokenType::Logand,
            TokenType::Logor => TokenType::Logor,
            TokenType::Question => TokenType::Question,
            TokenType::Colon => TokenType::Colon,
            TokenType::Equal => TokenType::Equal,
            TokenType::Comma => TokenType::Comma,
            TokenType::Semicolon => TokenType::Semicolon,
        }
    }
}

/// One token of the input: its kind, and where its text starts and ends in the source.
#[derive(Debug, PartialEq, Eq)]
pub struct Token {
    pub ty: TokenType,
    pub start: usize,
    pub end: usize,
}

impl Token {
    /// A token of the given kind with an empty source range.
    pub fn new(ty: TokenType) -> (t: Token)
        ensures
            t.ty == ty,
            t.start == 0,
            t.end == 0,
    {
        Token { ty, start: 0, end: 0 }
    }
}

impl Clone for Token {
    fn clone(&self) -> (r: Token)
        ensures
            r == *self,
    {
        Token { ty: self.ty.clone(), start: self.start, end: self.end }
    }
}

} // verus!
