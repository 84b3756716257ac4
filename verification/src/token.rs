//! The token model: lexical categories and the token value itself.

use vstd::prelude::*;

verus! {

/// The closed set of lexical categories.
///
/// `EOF` is part of the category model for the benefit of downstream
/// consumers; the scanner itself never emits it, signalling end of input by
/// stream exhaustion instead.
#[derive(Clone, Copy, Debug, PartialEq, Eq, Structural)]
pub enum TokenType {
    // Single-character tokens.
    LeftParen,
    RightParen,
    LeftBrace,
    RightBrace,
    Comma,
    Dot,
    Minus,
    Plus,
    Semicolon,
    Slash,
    Star,
    // One or two character tokens.
    Bang,
    BangEqual,
    Equal,
    EqualEqual,
    Greater,
    GreaterEqual,
    Less,
    LessEqual,
    // Literals.
    Identifier,
    String,
    Number,
    // Keywords.
    And,
    Class,
    Else,
    False,
    Fun,
    For,
    If,
    Nil,
    Or,
    Print,
    Return,
    Super,
    This,
    True,
    Var,
    While,
    EOF,
}

/// One lexical unit: its category, the exact matched source text (for string
/// literals, the text between the quotes), and the 1-based line on which the
/// token starts. `value` is reserved for a decoded literal payload and is
/// never set by this scanner.
#[derive(Debug)]
pub struct Token {
    pub kind: TokenType,
    pub lexeme: String,
    pub line: usize,
    pub value: Option<usize>,
}

} // verus!
