//! The errors of parsing and their messages.
use crate::text::{decimal, push_decimal};
use vstd::prelude::*;
use vstd::string::StringExecFns;

verus! {

/// Why a source text was not accepted. Each variant carries the index, in the
/// token sequence of the text, of the token at which parsing stopped.
#[derive(Clone, Copy, Debug, PartialEq, Eq, Structural)]
pub enum ParserError {
    /// The text ended where the grammar asks for more.
    UnexpectedEnd(usize),
    /// The token at this index cannot stand where it does.
    UnexpectedToken(usize),
    /// The token at this index is a character that belongs to no token.
    InvalidCharacter(usize),
    /// The token at this index is an integer literal that does not fit.
    IntegerTooLarge(usize),
}

/// What went wrong, without the place.
pub open spec fn parser_description(e: ParserError) -> Seq<char> {
    match e {
        ParserError::UnexpectedEnd(_) => "unexpected end of input"@,
        ParserError::UnexpectedToken(_) => "unexpected token"@,
        ParserError::InvalidCharacter(_) => "invalid character"@,
        ParserError::IntegerTooLarge(_) => "integer literal too large"@,
    }
}

/// The message of a parser error: what went wrong, and at which token.
pub open spec fn parser_message(e: ParserError) -> Seq<char> {
    parser_description(e) + " at token "@ + decimal(e.index() as nat)
}

impl ParserError {
    /// The index of the token at which parsing stopped.
    pub open spec fn index(self) -> usize {
        match self {
            ParserError::UnexpectedEnd(i) => i,
            ParserError::UnexpectedToken(i) => i,
            ParserError::InvalidCharacter(i) => i,
            ParserError::IntegerTooLarge(i) => i,
        }
    }

    /// The index of the token at which parsing stopped.
    pub fn position(&self) -> (res: usize)
        ensures
            res == self.index(),
    {
        match self {
            ParserError::UnexpectedEnd(i) => *i,
            ParserError::UnexpectedToken(i) => *i,
            ParserError::InvalidCharacter(i) => *i,
            ParserError::IntegerTooLarge(i) => *i,
        }
    }

    /// What went wrong, without the place.
    pub fn description(&self) -> (res: &'static str)
        ensures
            res@ == parser_description(*self),
    {
        match self {
            ParserError::UnexpectedEnd(_) => "unexpected end of input",
            ParserError::UnexpectedToken(_) => "unexpected token",
            ParserError::InvalidCharacter(_) => "invalid character",
            ParserError::IntegerTooLarge(_) => "integer literal too large",
        }
    }

    /// The message of the error.
    pub fn to_string(&self) -> (res: String)
        ensures
            res@ == parser_message(*self),
    {
        let mut out = String::from_str(self.description());
        out.append(" at token ");
        push_decimal(&mut out, self.position());
        out
    }
}

} // verus!
