//! An interpreter for a small expression language: integers and booleans,
//! arithmetic, comparisons and logical connectives, variables and constants,
//! conditionals, sequences, loops, first-class functions with recursion, and
//! printing.
//!
//! A source text is turned into tokens and parsed into a term. The term is
//! then reduced step by step, leftmost reducible sub-term first, on an
//! environment of frames, until it is a value. Each stage is an executable
//! function that is proved to compute a function of the mathematical model
//! of its arguments: `tokens_of` for the lexer, `parse_of` for the parser,
//! `step_of` and `eval_of` for the reducer. What holds of these models
//! beyond their definitions is proved in `laws`, on the ground laid in
//! `scoping` and `names`.
pub mod expr;
pub mod interpreter;
pub mod laws;
pub mod names;
pub mod parser;
pub mod runtime_error;
pub mod scoping;
pub mod semantics;
pub mod state;
pub mod text;
