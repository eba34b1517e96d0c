//! The errors of evaluation and their messages.
use crate::expr::{Expr, Term};
use crate::parser::parser_error::{parser_description, parser_message, ParserError};
use crate::text::{debug_of, debug_text, decimal, push_decimal, quoted_of, quoted_text};
use vstd::prelude::*;
use vstd::std_specs::convert::FromSpecImpl;
use vstd::string::StringExecFns;

verus! {

/// The errors of evaluation. None is recoverable within one evaluation.
#[derive(Debug, PartialEq)]
pub enum RuntimeError {
    /// The reducer was asked to step a value.
    SteppingOnValue(Expr),
    /// A term has a shape that no rule expects.
    UnexpectedExpr(String, Expr),
    /// Lookup of, or assignment to, a name that no frame binds.
    VariableNotFound(String),
    /// Assignment of the value to a name bound immutably.
    InvalidConstAssignment(Expr, String),
    /// A rule needed a term of the named kind and found this one.
    InvalidTypeConversion(String, Expr),
    /// The environment is in a state that evaluation cannot reach by itself.
    InvalidMemoryState(String),
    /// The iteration cap was exceeded.
    TooManyIterations(usize),
    /// The source text was not accepted.
    ParserError(ParserError),
    /// A sum, a difference, a product or a negation grew too large.
    IntegerOverflow,
    /// A sum, a difference or a product grew too small; or a divisor was
    /// zero, or a quotient or a step of the modulus was more than a value
    /// can hold.
    IntegerUnderflow,
}

/// The mathematical model of a [`RuntimeError`].
pub enum Failure {
    SteppingOnValue(Term),
    UnexpectedExpr(Seq<char>, Term),
    VariableNotFound(Seq<char>),
    InvalidConstAssignment(Term, Seq<char>),
    InvalidTypeConversion(Seq<char>, Term),
    InvalidMemoryState(Seq<char>),
    TooManyIterations(nat),
    ParserError(ParserError),
    IntegerOverflow,
    IntegerUnderflow,
}

impl View for RuntimeError {
    type V = Failure;

    open spec fn view(&self) -> Failure {
        match self {
            RuntimeError::SteppingOnValue(e) => Failure::SteppingOnValue(e@),
            RuntimeError::UnexpectedExpr(s, e) => Failure::UnexpectedExpr(s@, e@),
            RuntimeError::VariableNotFound(s) => Failure::VariableNotFound(s@),
            RuntimeError::InvalidConstAssignment(e, s) => Failure::InvalidConstAssignment(e@, s@),
            RuntimeError::InvalidTypeConversion(s, e) => Failure::InvalidTypeConversion(s@, e@),
            RuntimeError::InvalidMemoryState(s) => Failure::InvalidMemoryState(s@),
            RuntimeError::TooManyIterations(n) => Failure::TooManyIterations(*n as nat),
            RuntimeError::ParserError(p) => Failure::ParserError(*p),
            RuntimeError::IntegerOverflow => Failure::IntegerOverflow,
            RuntimeError::IntegerUnderflow => Failure::IntegerUnderflow,
        }
    }
}

impl From<ParserError> for RuntimeError {
    /// The runtime error that wraps a parser error.
    fn from(err: ParserError) -> (res: RuntimeError) {
        RuntimeError::ParserError(err)
    }
}

impl FromSpecImpl<ParserError> for RuntimeError {
    open spec fn obeys_from_spec() -> bool {
        true
    }

    open spec fn from_spec(err: ParserError) -> RuntimeError {
        RuntimeError::ParserError(err)
    }
}

/// The message of a failure.
pub open spec fn failure_message(f: Failure) -> Seq<char> {
    match f {
        Failure::SteppingOnValue(t) => "Stepping on a value "@ + debug_text(t),
        Failure::UnexpectedExpr(expected, t) => "Unexpected expression. Expected "@ + expected
            + " and found "@ + debug_text(t),
        Failure::VariableNotFound(name) => "Variable "@ + quoted_text(name)
            + " does not exist in memory"@,
        Failure::InvalidConstAssignment(t, name) => "Cannot assign "@ + debug_text(t)
            + " to const "@ + name,
        Failure::InvalidTypeConversion(expected, t) => "Invalid type conversion. Expected "@
            + expected + " and found "@ + debug_text(t),
        Failure::InvalidMemoryState(what) => "Unexpected internal memory state: "@ + what,
        Failure::TooManyIterations(n) => "Too many iterations while evaluating expression: "@
            + decimal(n),
        Failure::ParserError(e) => "Parser error: "@ + parser_message(e),
        Failure::IntegerOverflow => "Integer overflow: Integer underflow: Value grew too large"@,
        Failure::IntegerUnderflow => "Integer underflow: Value grew too small"@,
    }
}

/// The short description of a failure: what kind of failure it is.
pub open spec fn failure_description(f: Failure) -> Seq<char> {
    match f {
        Failure::SteppingOnValue(_) => "Stepping on a value"@,
        Failure::UnexpectedExpr(_, _) => "Unexpected expression"@,
        Failure::VariableNotFound(_) => "Variable does not exist in memory"@,
        Failure::InvalidConstAssignment(_, _) => "Cannot assign to const"@,
        Failure::InvalidTypeConversion(_, _) => "Invalid type conversion"@,
        Failure::InvalidMemoryState(_) => "Unexpected internal memory state"@,
        Failure::TooManyIterations(_) => "Too many iterations: {}"@,
        Failure::ParserError(e) => parser_description(e),
        Failure::IntegerOverflow => "Integer overflow: Value grew too large"@,
        Failure::IntegerUnderflow => "Integer underflow: Value grew too small"@,
    }
}

impl RuntimeError {
    /// The message of the error, which names the offending term or name
    /// where there is one.
    pub fn to_string(&self) -> (res: String)
        ensures
            res@ == failure_message(self@),
    {
        match self {
            RuntimeError::SteppingOnValue(e) => {
                let mut out = String::from_str("Stepping on a value ");
                out.append(debug_of(e).as_str());
                out
            },
            RuntimeError::UnexpectedExpr(expected, e) => {
                let mut out = String::from_str("Unexpected expression. Expected ");
                out.append(expected.as_str());
                out.append(" and found ");
                out.append(debug_of(e).as_str());
                out
            },
            RuntimeError::VariableNotFound(name) => {
                let mut out = String::from_str("Variable ");
                out.append(quoted_of(name.as_str()).as_str());
                out.append(" does not exist in memory");
                out
            },
            RuntimeError::InvalidConstAssignment(e, name) => {
                let mut out = String::from_str("Cannot assign ");
                out.append(debug_of(e).as_str());
                out.append(" to const ");
                out.append(name.as_str());
                out
            },
            RuntimeError::InvalidTypeConversion(expected, e) => {
                let mut out = String::from_str("Invalid type conversion. Expected ");
                out.append(expected.as_str());
                out.append(" and found ");
                out.append(debug_of(e).as_str());
                out
            },
            RuntimeError::InvalidMemoryState(what) => {
                let mut out = String::from_str("Unexpected internal memory state: ");
                out.append(what.as_str());
                out
            },
            RuntimeError::TooManyIterations(n) => {
                let mut out = String::from_str(
                    "Too many iterations while evaluating expression: ",
                );
                push_decimal(&mut out, *n);
                out
            },
            RuntimeError::ParserError(e) => {
                let mut out = String::from_str("Parser error: ");
                out.append(e.to_string().as_str());
                out
            },
            RuntimeError::IntegerOverflow => String::from_str(
                "Integer overflow: Integer underflow: Value grew too large",
            ),
            RuntimeError::IntegerUnderflow => String::from_str(
                "Integer underflow: Value grew too small",
            ),
        }
    }

    /// The short description of the error: what kind of error it is.
    pub fn description(&self) -> (res: &'static str)
        ensures
            res@ == failure_description(self@),
    {
        match self {
            RuntimeError::SteppingOnValue(_) => "Stepping on a value",
            RuntimeError::UnexpectedExpr(_, _) => "Unexpected expression",
            RuntimeError::VariableNotFound(_) => "Variable does not exist in memory",
            RuntimeError::InvalidConstAssignment(_, _) => "Cannot assign to const",
            RuntimeError::InvalidTypeConversion(_, _) => "Invalid type conversion",
            RuntimeError::InvalidMemoryState(_) => "Unexpected internal memory state",
            RuntimeError::TooManyIterations(_) => "Too many iterations: {}",
            RuntimeError::ParserError(e) => e.description(),
            RuntimeError::IntegerOverflow => "Integer overflow: Value grew too large",
            RuntimeError::IntegerUnderflow => "Integer underflow: Value grew too small",
        }
    }

    /// The error that caused this one: the parser's, where the source text
    /// was not accepted.
    pub fn cause(&self) -> (res: Option<ParserError>)
        ensures
            res == match self@ {
                Failure::ParserError(e) => Some(e),
                _ => None,
            },
    {
        match self {
            RuntimeError::ParserError(e) => Some(*e),
            _ => None,
        }
    }
}

} // verus!
