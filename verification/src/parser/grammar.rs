//! The grammar of the source language, as functions from tokens to terms.
//! Each function parses one form from a position among the tokens; together
//! they describe a recursive descent with one token of lookahead, or two
//! where a keyword opens more than one form.
use crate::expr::{BinOp, Dec, Term, UnOp, Value};
use crate::parser::lexer::tokens_of;
use crate::parser::parser_error::ParserError;
use crate::parser::token::{Symbol, Tok};
use vstd::prelude::*;

verus! {

/// What parsing a term from some position yields: the term and the position
/// after it, or the reason why there is none.
pub type Parsed = Result<(Term, int), ParserError>;

/// What parsing a list of terms yields.
pub type ParsedList = Result<(Seq<Term>, int), ParserError>;

/// Whether the token at `pos` is the symbol `sym`.
pub open spec fn sym_at(toks: Seq<Tok>, pos: int, sym: Symbol) -> bool {
    0 <= pos < toks.len() && toks[pos] == Tok::Sym(sym)
}

/// The failure to go on at `pos`.
pub open spec fn error_at(toks: Seq<Tok>, pos: int) -> ParserError {
    if pos < 0 || pos >= toks.len() {
        ParserError::UnexpectedEnd(toks.len() as usize)
    } else {
        match toks[pos] {
            Tok::Unknown(_) => ParserError::InvalidCharacter(pos as usize),
            Tok::TooLarge => ParserError::IntegerTooLarge(pos as usize),
            _ => ParserError::UnexpectedToken(pos as usize),
        }
    }
}

/// Whether a term may begin with this symbol.
pub open spec fn opens_term(sym: Symbol) -> bool {
    sym == Symbol::True || sym == Symbol::False || sym == Symbol::Let || sym == Symbol::Var || sym
        == Symbol::Fn || sym == Symbol::If || sym == Symbol::While || sym == Symbol::Print || sym
        == Symbol::Bang || sym == Symbol::Minus || sym == Symbol::LParen
}

/// Whether a term is to be parsed at `pos`: the token there may begin one, or
/// is an unknown character or an integer too large, which parsing the term
/// then reports.
pub open spec fn starts_term(toks: Seq<Tok>, pos: int) -> bool {
    0 <= pos < toks.len() && match toks[pos] {
        Tok::Sym(sym) => opens_term(sym),
        _ => true,
    }
}

/// A result that does not lead on, to a position after `pos` and within the
/// tokens, counts as a failure at `pos`. Every form takes at least one token,
/// so no result is turned into a failure here: the parser proves of each of
/// its results that it leads on. The grammar asks for it where it goes on
/// from a result, which shows that its recursion ends.
pub open spec fn onward(toks: Seq<Tok>, pos: int, r: Parsed) -> Parsed {
    match r {
        Ok((_, next)) => if pos < next <= toks.len() {
            r
        } else {
            Err(error_at(toks, pos))
        },
        Err(_) => r,
    }
}

/// As `onward`, for a list.
pub open spec fn onward_list(toks: Seq<Tok>, pos: int, r: ParsedList) -> ParsedList {
    match r {
        Ok((_, next)) => if pos < next <= toks.len() {
            r
        } else {
            Err(error_at(toks, pos))
        },
        Err(_) => r,
    }
}

/// The binary operator that a symbol denotes at a level of precedence. The
/// levels, from the one that binds tightest: 0 for `*`, `/` and `%`; 1 for `+`
/// and `-`; 2 for `<`, `>`, `<=` and `>=`; 3 for `==` and `!=`; 4 for `&&`; 5
/// for `||`.
pub open spec fn level_op(level: nat, sym: Symbol) -> Option<BinOp> {
    if level == 0 {
        match sym {
            Symbol::Star => Some(BinOp::Times),
            Symbol::Slash => Some(BinOp::Div),
            Symbol::Percent => Some(BinOp::Mod),
            _ => None,
        }
    } else if level == 1 {
        match sym {
            Symbol::Plus => Some(BinOp::Plus),
            Symbol::Minus => Some(BinOp::Minus),
            _ => None,
        }
    } else if level == 2 {
        match sym {
            Symbol::Lt => Some(BinOp::Lt),
            Symbol::Gt => Some(BinOp::Gt),
            Symbol::Le => Some(BinOp::Leq),
            Symbol::Ge => Some(BinOp::Geq),
            _ => None,
        }
    } else if level == 3 {
        match sym {
            Symbol::EqEq => Some(BinOp::Eq),
            Symbol::NotEq => Some(BinOp::Ne),
            _ => None,
        }
    } else if level == 4 {
        match sym {
            Symbol::AndAnd => Some(BinOp::And),
            _ => None,
        }
    } else if level == 5 {
        match sym {
            Symbol::OrOr => Some(BinOp::Or),
            _ => None,
        }
    } else {
        None
    }
}

/// The binary operator of a level that stands at `pos`, where one does.
pub open spec fn binop_at(toks: Seq<Tok>, pos: int, level: nat) -> Option<BinOp> {
    if 0 <= pos < toks.len() {
        match toks[pos] {
            Tok::Sym(sym) => level_op(level, sym),
            _ => None,
        }
    } else {
        None
    }
}

/// The loosest level of precedence of a binary operator.
pub const TOP_LEVEL: usize = 5;

/// The rest of a parameter list after a parameter: a closing parenthesis, or a
/// comma and one more parameter.
pub open spec fn params_tail(toks: Seq<Tok>, pos: int, acc: Seq<Term>) -> ParsedList
    decreases toks.len() - pos,
{
    if sym_at(toks, pos, Symbol::RParen) {
        Ok((acc, pos + 1))
    } else if sym_at(toks, pos, Symbol::Comma) {
        if 0 <= pos + 1 < toks.len() && toks[pos + 1] is Ident {
            params_tail(toks, pos + 2, acc.push(Term::Var(toks[pos + 1]->Ident_0)))
        } else {
            Err(error_at(toks, pos + 1))
        }
    } else {
        Err(error_at(toks, pos))
    }
}

/// A parameter list from behind its opening parenthesis: identifiers,
/// separated by commas, and the closing parenthesis.
pub open spec fn parse_params(toks: Seq<Tok>, pos: int) -> ParsedList {
    if sym_at(toks, pos, Symbol::RParen) {
        Ok((Seq::empty(), pos + 1))
    } else if 0 <= pos < toks.len() && toks[pos] is Ident {
        params_tail(toks, pos + 1, seq![Term::Var(toks[pos]->Ident_0)])
    } else {
        Err(error_at(toks, pos))
    }
}

/// A term at the loosest level: a declaration or a loop with what follows it,
/// or an assignment, alone or followed by `;` and the rest.
#[verifier::opaque]
pub open spec fn parse_expr(toks: Seq<Tok>, pos: int) -> Parsed
    decreases toks.len() - pos, 42nat,
{
    if sym_at(toks, pos, Symbol::Let) {
        parse_binding(toks, pos, Dec::DConst)
    } else if sym_at(toks, pos, Symbol::Var) {
        parse_binding(toks, pos, Dec::DVar)
    } else if sym_at(toks, pos, Symbol::Fn) && 0 <= pos + 1 < toks.len() && toks[pos + 1] is Ident {
        parse_fn_decl(toks, pos)
    } else if sym_at(toks, pos, Symbol::While) {
        parse_while(toks, pos)
    } else {
        parse_sequence(toks, pos)
    }
}

/// A binding `let x = e; rest` or `var x = e; rest`, from its keyword.
#[verifier::opaque]
pub open spec fn parse_binding(toks: Seq<Tok>, pos: int, kind: Dec) -> Parsed
    decreases toks.len() - pos, 41nat,
{
    if !(0 <= pos + 1 < toks.len() && toks[pos + 1] is Ident) {
        Err(error_at(toks, pos + 1))
    } else if !sym_at(toks, pos + 2, Symbol::Assign) {
        Err(error_at(toks, pos + 2))
    } else {
        match onward(toks, pos + 3, parse_assign(toks, pos + 3)) {
            Ok((init, end1)) => match parse_rest(toks, end1) {
                Ok((body, end2)) => Ok(
                    (
                        Term::Decl(
                            kind,
                            Box::new(Term::Var(toks[pos + 1]->Ident_0)),
                            Box::new(init),
                            Box::new(body),
                        ),
                        end2,
                    ),
                ),
                Err(e) => Err(e),
            },
            Err(e) => Err(e),
        }
    }
}

/// The declaration that binds `name` to the function value of that name.
pub open spec fn function_decl(name: Seq<char>, params: Seq<Term>, body: Term, rest: Term) -> Term {
    Term::Decl(
        Dec::DConst,
        Box::new(Term::Var(name)),
        Box::new(
            Term::Val(Value::Func(Some(Box::new(Term::Var(name))), Box::new(body), params)),
        ),
        Box::new(rest),
    )
}

/// A function declaration `fn f(params) { body }; rest`, from its keyword,
/// which an identifier follows.
#[verifier::opaque]
pub open spec fn parse_fn_decl(toks: Seq<Tok>, pos: int) -> Parsed
    decreases toks.len() - pos, 41nat,
{
    if !(0 <= pos + 1 < toks.len() && toks[pos + 1] is Ident) {
        Err(error_at(toks, pos + 1))
    } else if !sym_at(toks, pos + 2, Symbol::LParen) {
        Err(error_at(toks, pos + 2))
    } else {
        match onward_list(toks, pos + 3, parse_params(toks, pos + 3)) {
            Ok((params, end1)) => match onward(toks, end1, parse_block(toks, end1)) {
                Ok((body, end2)) => match parse_rest(toks, end2) {
                    Ok((rest, end3)) => Ok(
                        (function_decl(toks[pos + 1]->Ident_0, params, body, rest), end3),
                    ),
                    Err(e) => Err(e),
                },
                Err(e) => Err(e),
            },
            Err(e) => Err(e),
        }
    }
}

/// A loop `while (c) { b }; rest`, from its keyword. The condition and the
/// body stand in the loop twice: as the copies to work on and as the
/// templates.
#[verifier::opaque]
pub open spec fn parse_while(toks: Seq<Tok>, pos: int) -> Parsed
    decreases toks.len() - pos, 41nat,
{
    if !sym_at(toks, pos + 1, Symbol::LParen) {
        Err(error_at(toks, pos + 1))
    } else {
        match onward(toks, pos + 2, parse_expr(toks, pos + 2)) {
            Ok((cond, end1)) => if !sym_at(toks, end1, Symbol::RParen) {
                Err(error_at(toks, end1))
            } else {
                match onward(toks, end1 + 1, parse_block(toks, end1 + 1)) {
                    Ok((body, end2)) => match parse_rest(toks, end2) {
                        Ok((after, end3)) => Ok(
                            (
                                Term::While(
                                    Box::new(cond),
                                    Box::new(cond),
                                    Box::new(body),
                                    Box::new(body),
                                    Box::new(after),
                                ),
                                end3,
                            ),
                        ),
                        Err(e) => Err(e),
                    },
                    Err(e) => Err(e),
                }
            },
            Err(e) => Err(e),
        }
    }
}

/// An assignment, alone or followed by `;` and the rest.
#[verifier::opaque]
pub open spec fn parse_sequence(toks: Seq<Tok>, pos: int) -> Parsed
    decreases toks.len() - pos, 41nat,
{
    match onward(toks, pos, parse_assign(toks, pos)) {
        Ok((first, end1)) => if sym_at(toks, end1, Symbol::Semi) {
            match parse_rest(toks, end1) {
                Ok((rest, end2)) => Ok(
                    (Term::Bop(BinOp::Sequence, Box::new(first), Box::new(rest)), end2),
                ),
                Err(e) => Err(e),
            }
        } else {
            Ok((first, end1))
        },
        Err(e) => Err(e),
    }
}

/// What follows a declaration, a loop or the left side of a sequence: a `;`
/// and a term, or a `;` alone, or nothing. Where no term follows, the rest is
/// the value `Undefined`.
#[verifier::opaque]
pub open spec fn parse_rest(toks: Seq<Tok>, pos: int) -> Parsed
    decreases toks.len() - pos, 0nat,
{
    if sym_at(toks, pos, Symbol::Semi) {
        if starts_term(toks, pos + 1) {
            parse_expr(toks, pos + 1)
        } else {
            Ok((Term::Val(Value::Undefined), pos + 1))
        }
    } else {
        Ok((Term::Val(Value::Undefined), pos))
    }
}

/// A block: a term in braces. An empty pair of braces is the value
/// `Undefined`.
#[verifier::opaque]
pub open spec fn parse_block(toks: Seq<Tok>, pos: int) -> Parsed
    decreases toks.len() - pos, 0nat,
{
    if !sym_at(toks, pos, Symbol::LBrace) {
        Err(error_at(toks, pos))
    } else if sym_at(toks, pos + 1, Symbol::RBrace) {
        Ok((Term::Val(Value::Undefined), pos + 2))
    } else {
        match onward(toks, pos + 1, parse_expr(toks, pos + 1)) {
            Ok((body, end1)) => if sym_at(toks, end1, Symbol::RBrace) {
                Ok((body, end1 + 1))
            } else {
                Err(error_at(toks, end1))
            },
            Err(e) => Err(e),
        }
    }
}

/// An assignment, which associates to the right, or a term of the next level.
#[verifier::opaque]
pub open spec fn parse_assign(toks: Seq<Tok>, pos: int) -> Parsed
    decreases toks.len() - pos, 39nat,
{
    match onward(toks, pos, parse_ternary(toks, pos)) {
        Ok((target, end1)) => if sym_at(toks, end1, Symbol::Assign) {
            match parse_assign(toks, end1 + 1) {
                Ok((source, end2)) => Ok(
                    (Term::Bop(BinOp::Assign, Box::new(target), Box::new(source)), end2),
                ),
                Err(e) => Err(e),
            }
        } else {
            Ok((target, end1))
        },
        Err(e) => Err(e),
    }
}

/// A conditional `c ? t : f`, which associates to the right, or a term of the
/// next level. The middle term is a term of the loosest level.
#[verifier::opaque]
pub open spec fn parse_ternary(toks: Seq<Tok>, pos: int) -> Parsed
    decreases toks.len() - pos, 38nat,
{
    match onward(toks, pos, parse_binary(toks, pos, TOP_LEVEL as nat)) {
        Ok((cond, end1)) => if sym_at(toks, end1, Symbol::Question) {
            match onward(toks, end1 + 1, parse_expr(toks, end1 + 1)) {
                Ok((yes, end2)) => if sym_at(toks, end2, Symbol::Colon) {
                    match parse_ternary(toks, end2 + 1) {
                        Ok((no, end3)) => Ok(
                            (Term::Ternary(Box::new(cond), Box::new(yes), Box::new(no)), end3),
                        ),
                        Err(e) => Err(e),
                    }
                } else {
                    Err(error_at(toks, end2))
                },
                Err(e) => Err(e),
            }
        } else {
            Ok((cond, end1))
        },
        Err(e) => Err(e),
    }
}

/// A chain of binary operators of one level, which associate to the left,
/// between operands of the next tighter level.
#[verifier::opaque]
pub open spec fn parse_binary(toks: Seq<Tok>, pos: int, level: nat) -> Parsed
    decreases toks.len() - pos, 22 + 2 * level,
{
    if level > TOP_LEVEL {
        Err(error_at(toks, pos))
    } else {
        match onward(toks, pos, parse_operand(toks, pos, level)) {
            Ok((left, end1)) => binary_tail(toks, end1, level, left),
            Err(e) => Err(e),
        }
    }
}

/// An operand of a binary operator of a level: a chain of the next tighter
/// level, or below the tightest a unary term.
#[verifier::opaque]
pub open spec fn parse_operand(toks: Seq<Tok>, pos: int, level: nat) -> Parsed
    decreases toks.len() - pos, 21 + 2 * level,
{
    if level == 0 {
        parse_unary(toks, pos)
    } else if level > TOP_LEVEL {
        Err(error_at(toks, pos))
    } else {
        parse_binary(toks, pos, (level - 1) as nat)
    }
}

/// The rest of a chain of a level after its operand `left`.
#[verifier::opaque]
pub open spec fn binary_tail(toks: Seq<Tok>, pos: int, level: nat, left: Term) -> Parsed
    decreases toks.len() - pos, 0nat,
{
    match binop_at(toks, pos, level) {
        Some(op) => match onward(toks, pos + 1, parse_operand(toks, pos + 1, level)) {
            Ok((right, end1)) => binary_tail(
                toks,
                end1,
                level,
                Term::Bop(op, Box::new(left), Box::new(right)),
            ),
            Err(e) => Err(e),
        },
        None => Ok((left, pos)),
    }
}

/// A term under any number of the prefix operators `!` and `-`.
#[verifier::opaque]
pub open spec fn parse_unary(toks: Seq<Tok>, pos: int) -> Parsed
    decreases toks.len() - pos, 10nat,
{
    if sym_at(toks, pos, Symbol::Bang) || sym_at(toks, pos, Symbol::Minus) {
        let op = if sym_at(toks, pos, Symbol::Bang) {
            UnOp::Not
        } else {
            UnOp::Neg
        };
        match parse_unary(toks, pos + 1) {
            Ok((inner, end1)) => Ok((Term::Uop(op, Box::new(inner)), end1)),
            Err(e) => Err(e),
        }
    } else {
        parse_postfix(toks, pos)
    }
}

/// A primary term followed by any number of argument lists.
#[verifier::opaque]
pub open spec fn parse_postfix(toks: Seq<Tok>, pos: int) -> Parsed
    decreases toks.len() - pos, 9nat,
{
    match onward(toks, pos, parse_primary(toks, pos)) {
        Ok((callee, end1)) => call_tail(toks, end1, callee),
        Err(e) => Err(e),
    }
}

/// The argument lists that follow `callee`.
#[verifier::opaque]
pub open spec fn call_tail(toks: Seq<Tok>, pos: int, callee: Term) -> Parsed
    decreases toks.len() - pos, 0nat,
{
    if sym_at(toks, pos, Symbol::LParen) {
        match onward_list(toks, pos + 1, parse_args(toks, pos + 1)) {
            Ok((args, end1)) => call_tail(toks, end1, Term::FnCall(Box::new(callee), args)),
            Err(e) => Err(e),
        }
    } else {
        Ok((callee, pos))
    }
}

/// An argument list from behind its opening parenthesis: assignments,
/// separated by commas, and the closing parenthesis.
#[verifier::opaque]
pub open spec fn parse_args(toks: Seq<Tok>, pos: int) -> ParsedList
    decreases toks.len() - pos, 43nat,
{
    if sym_at(toks, pos, Symbol::RParen) {
        Ok((Seq::empty(), pos + 1))
    } else {
        match onward(toks, pos, parse_assign(toks, pos)) {
            Ok((arg, end1)) => args_tail(toks, end1, seq![arg]),
            Err(e) => Err(e),
        }
    }
}

/// The rest of an argument list after an argument.
#[verifier::opaque]
pub open spec fn args_tail(toks: Seq<Tok>, pos: int, acc: Seq<Term>) -> ParsedList
    decreases toks.len() - pos, 0nat,
{
    if sym_at(toks, pos, Symbol::RParen) {
        Ok((acc, pos + 1))
    } else if sym_at(toks, pos, Symbol::Comma) {
        match onward(toks, pos + 1, parse_assign(toks, pos + 1)) {
            Ok((arg, end1)) => args_tail(toks, end1, acc.push(arg)),
            Err(e) => Err(e),
        }
    } else {
        Err(error_at(toks, pos))
    }
}

/// A primary term: a literal, a name, a term in parentheses, a function
/// literal, a conditional or a print.
#[verifier::opaque]
pub open spec fn parse_primary(toks: Seq<Tok>, pos: int) -> Parsed
    decreases toks.len() - pos, 8nat,
{
    if pos < 0 || pos >= toks.len() {
        Err(error_at(toks, pos))
    } else {
        match toks[pos] {
            Tok::Integer(n) => Ok((Term::Val(Value::Int(n)), pos + 1)),
            Tok::Ident(x) => Ok((Term::Var(x), pos + 1)),
            Tok::Sym(Symbol::True) => Ok((Term::Val(Value::Bool(true)), pos + 1)),
            Tok::Sym(Symbol::False) => Ok((Term::Val(Value::Bool(false)), pos + 1)),
            Tok::Sym(Symbol::LParen) => parse_paren(toks, pos),
            Tok::Sym(Symbol::Fn) => parse_fn_literal(toks, pos),
            Tok::Sym(Symbol::If) => parse_if(toks, pos + 1),
            Tok::Sym(Symbol::Print) => parse_print(toks, pos),
            _ => Err(error_at(toks, pos)),
        }
    }
}

/// A term in parentheses, from the opening parenthesis.
#[verifier::opaque]
pub open spec fn parse_paren(toks: Seq<Tok>, pos: int) -> Parsed
    decreases toks.len() - pos, 0nat,
{
    if !sym_at(toks, pos, Symbol::LParen) {
        Err(error_at(toks, pos))
    } else {
        match onward(toks, pos + 1, parse_expr(toks, pos + 1)) {
            Ok((inner, end1)) => if sym_at(toks, end1, Symbol::RParen) {
                Ok((inner, end1 + 1))
            } else {
                Err(error_at(toks, end1))
            },
            Err(e) => Err(e),
        }
    }
}

/// A function literal `fn (params) { body }`, from its keyword.
#[verifier::opaque]
pub open spec fn parse_fn_literal(toks: Seq<Tok>, pos: int) -> Parsed
    decreases toks.len() - pos, 0nat,
{
    if !sym_at(toks, pos + 1, Symbol::LParen) {
        Err(error_at(toks, pos + 1))
    } else {
        match onward_list(toks, pos + 2, parse_params(toks, pos + 2)) {
            Ok((params, end1)) => match parse_block(toks, end1) {
                Ok((body, end2)) => Ok((Term::Val(Value::Func(None, Box::new(body), params)), end2)),
                Err(e) => Err(e),
            },
            Err(e) => Err(e),
        }
    }
}

/// A print `print(e)`, from its keyword.
#[verifier::opaque]
pub open spec fn parse_print(toks: Seq<Tok>, pos: int) -> Parsed
    decreases toks.len() - pos, 0nat,
{
    if !sym_at(toks, pos + 1, Symbol::LParen) {
        Err(error_at(toks, pos + 1))
    } else {
        match onward(toks, pos + 2, parse_expr(toks, pos + 2)) {
            Ok((inner, end1)) => if sym_at(toks, end1, Symbol::RParen) {
                Ok((Term::Print(Box::new(inner)), end1 + 1))
            } else {
                Err(error_at(toks, end1))
            },
            Err(e) => Err(e),
        }
    }
}

/// A conditional from behind its `if`: a condition in parentheses, a block,
/// and the other branch.
#[verifier::opaque]
pub open spec fn parse_if(toks: Seq<Tok>, pos: int) -> Parsed
    decreases toks.len() - pos, 0nat,
{
    if !sym_at(toks, pos, Symbol::LParen) {
        Err(error_at(toks, pos))
    } else {
        match onward(toks, pos + 1, parse_expr(toks, pos + 1)) {
            Ok((cond, end1)) => if !sym_at(toks, end1, Symbol::RParen) {
                Err(error_at(toks, end1))
            } else {
                match onward(toks, end1 + 1, parse_block(toks, end1 + 1)) {
                    Ok((yes, end2)) => match parse_else(toks, end2) {
                        Ok((no, end3)) => Ok(
                            (Term::Ternary(Box::new(cond), Box::new(yes), Box::new(no)), end3),
                        ),
                        Err(e) => Err(e),
                    },
                    Err(e) => Err(e),
                }
            },
            Err(e) => Err(e),
        }
    }
}

/// The other branch of a conditional: after `else` a block or one more
/// conditional; without an `else` the value `Undefined`.
#[verifier::opaque]
pub open spec fn parse_else(toks: Seq<Tok>, pos: int) -> Parsed
    decreases toks.len() - pos, 0nat,
{
    if sym_at(toks, pos, Symbol::Else) {
        if sym_at(toks, pos + 1, Symbol::If) {
            parse_if(toks, pos + 2)
        } else {
            parse_block(toks, pos + 1)
        }
    } else {
        Ok((Term::Val(Value::Undefined), pos))
    }
}

/// The term that a sequence of tokens begins with. Tokens that follow the
/// term are not looked at.
pub open spec fn parse_tokens(toks: Seq<Tok>) -> Result<Term, ParserError> {
    match parse_expr(toks, 0) {
        Ok((t, _)) => Ok(t),
        Err(e) => Err(e),
    }
}

/// The term that a source text denotes.
pub open spec fn parse_of(source: Seq<char>) -> Result<Term, ParserError> {
    parse_tokens(tokens_of(source))
}

} // verus!
