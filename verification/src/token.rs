//! Tokens: the words of a Lox program.
use vstd::prelude::*;

verus! {

/// The lexical class of a token.
#[derive(Clone, Copy, PartialEq, Eq, Structural, Debug)]
pub enum TokenType {
    // Single-character tokens.
    LeftParen,
    RightParen,
    LeftBrace,
    RightBrace,
    Comma,
    Dot,
    Minus,
    Plus,
    Semicolon,
    Slash,
    Star,
    // One or two character tokens.
    Bang,
    BangEqual,
    Equal,
    EqualEqual,
    Greater,
    GreaterEqual,
    Less,
    LessEqual,
    // Literals.
    Identifier,
    StringToken,
    Number,
    // Keywords.
    And,
    Class,
    Else,
    False,
    Fun,
    For,
    If,
    NilTokenType,
    Or,
    Print,
    Return,
    Super,
    This,
    True,
    Var,
    While,
    Eof,
}

/// The constant that a token or a literal expression carries.
///
/// A number is kept as the numeral that was written: turning it into a double
/// is left to the host that runs the program.
#[derive(Debug)]
pub enum Literal {
    NumberLiteral(String),
    StringLiteral(String),
    BoolLiteral(bool),
    NoneLiteral,
}

impl Clone for Literal {
    fn clone(&self) -> (r: Self)
        ensures
            r == *self,
    {
        match self {
            Literal::NumberLiteral(s) => Literal::NumberLiteral(s.clone()),
            Literal::StringLiteral(s) => Literal::StringLiteral(s.clone()),
            Literal::BoolLiteral(b) => Literal::BoolLiteral(*b),
            Literal::NoneLiteral => Literal::NoneLiteral,
        }
    }
}

/// One token: its class, the text it was read from, its constant, the line it
/// ends on (counted from 1) and the position of its first character.
#[derive(Debug)]
pub struct Token {
    pub token_type: TokenType,
    pub lexeme: String,
    pub literal: Literal,
    pub line: usize,
    pub offset: usize,
}

impl Clone for Token {
    fn clone(&self) -> (r: Self)
        ensures
            r == *self,
    {
        Token {
            token_type: self.token_type,
            lexeme: self.lexeme.clone(),
            literal: self.literal.clone(),
            line: self.line,
            offset: self.offset,
        }
    }
}

impl Token {
    pub fn from(
        token_type: TokenType,
        lexeme: String,
        literal: Literal,
        line: usize,
        offset: usize,
    ) -> (t: Self)
        ensures
            t == (Token { token_type, lexeme, literal, line, offset }),
    {
        Token { token_type, lexeme, literal, line, offset }
    }
}

} // verus!
