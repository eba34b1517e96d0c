//! From source text to terms: tokens, the grammar, the lexer and the parser.
pub mod grammar;
pub mod lexer;
pub mod parser;
pub mod parser_error;
pub mod shape;
pub mod token;
