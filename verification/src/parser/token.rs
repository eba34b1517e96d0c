//! The tokens of the source language.
use vstd::prelude::*;

verus! {

/// The tokens that carry nothing but their kind: keywords, operators and
/// punctuation.
#[derive(Clone, Copy, Debug, PartialEq, Eq, Structural)]
pub enum Symbol {
    True,
    False,
    Let,
    Var,
    Fn,
    If,
    Else,
    While,
    Print,
    Plus,
    Minus,
    Star,
    Slash,
    Percent,
    EqEq,
    NotEq,
    Lt,
    Gt,
    Le,
    Ge,
    AndAnd,
    OrOr,
    Bang,
    Assign,
    Question,
    Colon,
    Semi,
    Comma,
    LParen,
    RParen,
    LBrace,
    RBrace,
}

/// A token of the source language.
#[derive(Debug, PartialEq)]
pub enum Token {
    /// A decimal integer literal that a value can hold.
    Integer(isize),
    /// An identifier that is no keyword.
    Ident(String),
    /// A keyword, an operator or a punctuation mark.
    Sym(Symbol),
    /// A character that begins no token.
    Unknown(char),
    /// A decimal integer literal too large for a value to hold.
    TooLarge,
}

/// The mathematical model of a [`Token`].
pub enum Tok {
    Integer(int),
    Ident(Seq<char>),
    Sym(Symbol),
    Unknown(char),
    TooLarge,
}

impl View for Token {
    type V = Tok;

    open spec fn view(&self) -> Tok {
        match self {
            Token::Integer(n) => Tok::Integer(*n as int),
            Token::Ident(s) => Tok::Ident(s@),
            Token::Sym(s) => Tok::Sym(*s),
            Token::Unknown(c) => Tok::Unknown(*c),
            Token::TooLarge => Tok::TooLarge,
        }
    }
}

/// The models of a list of tokens, in order.
pub open spec fn toks_of(tokens: Seq<Token>) -> Seq<Tok> {
    tokens.map_values(|t: Token| t@)
}

} // verus!
