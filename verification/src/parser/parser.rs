//! The parser: executable functions that compute what the grammar states.
use crate::expr::{lemma_terms_of_push, terms_of, BinOp, Dec, Expr, Term, UnOp, Val};
use crate::parser::grammar::{
    args_tail, binary_tail, binop_at, call_tail, error_at, function_decl, params_tail, parse_args,
    parse_assign, parse_binary, parse_block, parse_binding, parse_else, parse_expr, parse_fn_decl,
    parse_fn_literal, parse_if, parse_of, parse_operand, parse_params, parse_paren, parse_postfix,
    parse_primary, parse_print, parse_rest, parse_sequence, parse_ternary, parse_unary,
    parse_while, starts_term, sym_at, Parsed, ParsedList, TOP_LEVEL,
};
use crate::parser::lexer::{tokens_of, Lexer};
use crate::parser::parser_error::ParserError;
use crate::parser::token::{toks_of, Symbol, Tok, Token};
use crate::parser::shape::law_parsed_terms;
use crate::scoping::scope_free;
use vstd::prelude::*;
use vstd::string::StringExecFns;

verus! {

/// The model of what parsing a term returns.
pub open spec fn parsed_view(r: Result<(Expr, usize), ParserError>) -> Parsed {
    match r {
        Ok((e, next)) => Ok((e@, next as int)),
        Err(e) => Err(e),
    }
}

/// The model of what parsing a list of terms returns.
pub open spec fn parsed_list_view(r: Result<(Vec<Expr>, usize), ParserError>) -> ParsedList {
    match r {
        Ok((es, next)) => Ok((terms_of(es@), next as int)),
        Err(e) => Err(e),
    }
}

/// A successful result leads on, to a position after `pos` and within `len`.
pub open spec fn leads_on<T>(r: Result<(T, usize), ParserError>, pos: usize, len: usize) -> bool {
    r matches Ok((_, next)) ==> pos < next <= len
}

/// A successful result does not lead back before `pos`, nor beyond `len`.
pub open spec fn stays_on<T>(r: Result<(T, usize), ParserError>, pos: usize, len: usize) -> bool {
    r matches Ok((_, next)) ==> pos <= next <= len
}

/// Whether the token `ahead` places after `pos` is the symbol `sym`.
fn sym_ahead(tokens: &Vec<Token>, pos: usize, ahead: usize, sym: Symbol) -> (res: bool)
    requires
        pos <= tokens.len(),
    ensures
        res == sym_at(toks_of(tokens@), pos + ahead, sym),
{
    if tokens.len() - pos > ahead {
        match &tokens[pos + ahead] {
            Token::Sym(s) => *s == sym,
            _ => false,
        }
    } else {
        false
    }
}

/// The identifier `ahead` places after `pos`, where one stands there.
fn ident_ahead(tokens: &Vec<Token>, pos: usize, ahead: usize) -> (res: Option<String>)
    requires
        pos <= tokens.len(),
    ensures
        match res {
            Some(name) => 0 <= pos + ahead < tokens.len() && toks_of(tokens@)[pos + ahead]
                == Tok::Ident(name@),
            None => !(0 <= pos + ahead < tokens.len() && toks_of(tokens@)[pos + ahead] is Ident),
        },
{
    if tokens.len() - pos > ahead {
        match &tokens[pos + ahead] {
            Token::Ident(name) => Some(name.clone()),
            _ => None,
        }
    } else {
        None
    }
}

/// The failure to go on `ahead` places after `pos`.
fn fail_ahead(tokens: &Vec<Token>, pos: usize, ahead: usize) -> (res: ParserError)
    requires
        pos <= tokens.len(),
    ensures
        res == error_at(toks_of(tokens@), pos + ahead),
{
    if tokens.len() - pos > ahead {
        match &tokens[pos + ahead] {
            Token::Unknown(_) => ParserError::InvalidCharacter(pos + ahead),
            Token::TooLarge => ParserError::IntegerTooLarge(pos + ahead),
            _ => ParserError::UnexpectedToken(pos + ahead),
        }
    } else {
        ParserError::UnexpectedEnd(tokens.len())
    }
}

/// The binary operator of a level that stands at `pos`, where one does.
fn binop_here(tokens: &Vec<Token>, pos: usize, level: usize) -> (res: Option<BinOp>)
    requires
        pos <= tokens.len(),
    ensures
        res == binop_at(toks_of(tokens@), pos as int, level as nat),
{
    if pos >= tokens.len() {
        return None;
    }
    let sym = match &tokens[pos] {
        Token::Sym(s) => *s,
        _ => { return None; },
    };
    if level == 0 {
        match sym {
            Symbol::Star => Some(BinOp::Times),
            Symbol::Slash => Some(BinOp::Div),
            Symbol::Percent => Some(BinOp::Mod),
            _ => None,
        }
    } else if level == 1 {
        match sym {
            Symbol::Plus => Some(BinOp::Plus),
            Symbol::Minus => Some(BinOp::Minus),
            _ => None,
        }
    } else if level == 2 {
        match sym {
            Symbol::Lt => Some(BinOp::Lt),
            Symbol::Gt => Some(BinOp::Gt),
            Symbol::Le => Some(BinOp::Leq),
            Symbol::Ge => Some(BinOp::Geq),
            _ => None,
        }
    } else if level == 3 {
        match sym {
            Symbol::EqEq => Some(BinOp::Eq),
            Symbol::NotEq => Some(BinOp::Ne),
            _ => None,
        }
    } else if level == 4 {
        match sym {
            Symbol::AndAnd => Some(BinOp::And),
            _ => None,
        }
    } else if level == 5 {
        match sym {
            Symbol::OrOr => Some(BinOp::Or),
            _ => None,
        }
    } else {
        None
    }
}

/// Whether a term is to be parsed `ahead` places after `pos`.
fn term_ahead(tokens: &Vec<Token>, pos: usize, ahead: usize) -> (res: bool)
    requires
        pos <= tokens.len(),
    ensures
        res == starts_term(toks_of(tokens@), pos + ahead),
{
    if tokens.len() - pos > ahead {
        match &tokens[pos + ahead] {
            Token::Sym(sym) => match sym {
                Symbol::True
                | Symbol::False
                | Symbol::Let
                | Symbol::Var
                | Symbol::Fn
                | Symbol::If
                | Symbol::While
                | Symbol::Print
                | Symbol::Bang
                | Symbol::Minus
                | Symbol::LParen => true,
                _ => false,
            },
            _ => true,
        }
    } else {
        false
    }
}

/// Parses a parameter list from behind its opening parenthesis.
#[verifier::spinoff_prover]
fn params(tokens: &Vec<Token>, pos: usize) -> (res: Result<(Vec<Expr>, usize), ParserError>)
    requires
        pos <= tokens.len(),
    ensures
        parsed_list_view(res) == parse_params(toks_of(tokens@), pos as int),
        leads_on(res, pos, tokens.len()),
{
    let mut out: Vec<Expr> = Vec::new();
    if sym_ahead(tokens, pos, 0, Symbol::RParen) {
        assert(terms_of(out@) =~= Seq::<Term>::empty());
        return Ok((out, pos + 1));
    }
    let first = match ident_ahead(tokens, pos, 0) {
        Some(name) => name,
        None => { return Err(fail_ahead(tokens, pos, 0)); },
    };
    proof {
        lemma_terms_of_push(out@, Expr::Var(first));
        assert(terms_of(out@.push(Expr::Var(first))) =~= seq![Term::Var(first@)]);
    }
    out.push(Expr::Var(first));
    let mut p: usize = pos + 1;
    loop
        invariant
            pos < p <= tokens.len(),
            params_tail(toks_of(tokens@), p as int, terms_of(out@)) == parse_params(
                toks_of(tokens@),
                pos as int,
            ),
        decreases tokens.len() - p,
    {
        if sym_ahead(tokens, p, 0, Symbol::RParen) {
            return Ok((out, p + 1));
        }
        if !sym_ahead(tokens, p, 0, Symbol::Comma) {
            return Err(fail_ahead(tokens, p, 0));
        }
        let name = match ident_ahead(tokens, p, 1) {
            Some(name) => name,
            None => { return Err(fail_ahead(tokens, p, 1)); },
        };
        proof {
            lemma_terms_of_push(out@, Expr::Var(name));
        }
        out.push(Expr::Var(name));
        p = p + 2;
    }
}

/// Parses a term of the loosest level.
#[verifier::spinoff_prover]
fn expr_at(tokens: &Vec<Token>, pos: usize) -> (res: Result<(Expr, usize), ParserError>)
    requires
        pos <= tokens.len(),
    ensures
        parsed_view(res) == parse_expr(toks_of(tokens@), pos as int),
        leads_on(res, pos, tokens.len()),
    decreases tokens.len() - pos, 42nat,
{
    proof {
        reveal_with_fuel(parse_expr, 1);
        reveal_with_fuel(parse_binding, 1);
        reveal_with_fuel(parse_fn_decl, 1);
        reveal_with_fuel(parse_while, 1);
        reveal_with_fuel(parse_sequence, 1);
    }
    if sym_ahead(tokens, pos, 0, Symbol::Let) {
        binding_at(tokens, pos, Dec::DConst)
    } else if sym_ahead(tokens, pos, 0, Symbol::Var) {
        binding_at(tokens, pos, Dec::DVar)
    } else if sym_ahead(tokens, pos, 0, Symbol::Fn) && ident_ahead(tokens, pos, 1).is_some() {
        fn_decl_at(tokens, pos)
    } else if sym_ahead(tokens, pos, 0, Symbol::While) {
        while_at(tokens, pos)
    } else {
        sequence_at(tokens, pos)
    }
}

/// Parses a binding from its keyword.
#[verifier::spinoff_prover]
fn binding_at(tokens: &Vec<Token>, pos: usize, kind: Dec) -> (res: Result<(Expr, usize), ParserError>)
    requires
        pos <= tokens.len(),
    ensures
        parsed_view(res) == parse_binding(toks_of(tokens@), pos as int, kind),
        leads_on(res, pos, tokens.len()),
    decreases tokens.len() - pos, 41nat,
{
    proof {
        reveal_with_fuel(parse_binding, 1);
        reveal_with_fuel(parse_assign, 1);
        reveal_with_fuel(parse_rest, 1);
    }
    let name = match ident_ahead(tokens, pos, 1) {
        Some(name) => name,
        None => { return Err(fail_ahead(tokens, pos, 1)); },
    };
    if !sym_ahead(tokens, pos, 2, Symbol::Assign) {
        return Err(fail_ahead(tokens, pos, 2));
    }
    let (init, end1) = match assign_at(tokens, pos + 3) {
        Ok(found) => found,
        Err(e) => { return Err(e); },
    };
    assert(Expr::Var(name)@ == Term::Var(name@));
    match rest_at(tokens, end1) {
        Ok((body, end2)) => Ok(
            (Expr::Decl(kind, Box::new(Expr::Var(name)), Box::new(init), Box::new(body)), end2),
        ),
        Err(e) => Err(e),
    }
}

/// The declaration that binds `name` to the function value of that name.
fn make_function_decl(name: String, ps: Vec<Expr>, body: Expr, rest: Expr) -> (res: Expr)
    ensures
        res@ == function_decl(name@, terms_of(ps@), body@, rest@),
{
    let own_name = Expr::Var(name.clone());
    assert(own_name@ == Term::Var(name@));
    let function = Val::Func(Some(Box::new(own_name)), Box::new(body), ps);
    assert(Expr::Val(function)@ == Term::Val(function@));
    assert(Expr::Var(name)@ == Term::Var(name@));
    Expr::Decl(
        Dec::DConst,
        Box::new(Expr::Var(name)),
        Box::new(Expr::Val(function)),
        Box::new(rest),
    )
}

/// Parses a function declaration from its keyword.
#[verifier::spinoff_prover]
fn fn_decl_at(tokens: &Vec<Token>, pos: usize) -> (res: Result<(Expr, usize), ParserError>)
    requires
        pos <= tokens.len(),
    ensures
        parsed_view(res) == parse_fn_decl(toks_of(tokens@), pos as int),
        leads_on(res, pos, tokens.len()),
    decreases tokens.len() - pos, 41nat,
{
    proof {
        reveal_with_fuel(parse_fn_decl, 1);
        reveal_with_fuel(parse_block, 1);
        reveal_with_fuel(parse_rest, 1);
    }
    let name = match ident_ahead(tokens, pos, 1) {
        Some(name) => name,
        None => { return Err(fail_ahead(tokens, pos, 1)); },
    };
    if !sym_ahead(tokens, pos, 2, Symbol::LParen) {
        return Err(fail_ahead(tokens, pos, 2));
    }
    let (ps, end1) = match params(tokens, pos + 3) {
        Ok(found) => found,
        Err(e) => { return Err(e); },
    };
    let (body, end2) = match block_at(tokens, end1) {
        Ok(found) => found,
        Err(e) => { return Err(e); },
    };
    match rest_at(tokens, end2) {
        Ok((rest, end3)) => Ok((make_function_decl(name, ps, body, rest), end3)),
        Err(e) => Err(e),
    }
}

/// Parses a loop from its keyword.
#[verifier::spinoff_prover]
fn while_at(tokens: &Vec<Token>, pos: usize) -> (res: Result<(Expr, usize), ParserError>)
    requires
        pos <= tokens.len(),
    ensures
        parsed_view(res) == parse_while(toks_of(tokens@), pos as int),
        leads_on(res, pos, tokens.len()),
    decreases tokens.len() - pos, 41nat,
{
    proof {
        reveal_with_fuel(parse_while, 1);
        reveal_with_fuel(parse_expr, 1);
        reveal_with_fuel(parse_block, 1);
        reveal_with_fuel(parse_rest, 1);
    }
    if !sym_ahead(tokens, pos, 1, Symbol::LParen) {
        return Err(fail_ahead(tokens, pos, 1));
    }
    let (cond, end1) = match expr_at(tokens, pos + 2) {
        Ok(found) => found,
        Err(e) => { return Err(e); },
    };
    if !sym_ahead(tokens, end1, 0, Symbol::RParen) {
        return Err(fail_ahead(tokens, end1, 0));
    }
    let (body, end2) = match block_at(tokens, end1 + 1) {
        Ok(found) => found,
        Err(e) => { return Err(e); },
    };
    match rest_at(tokens, end2) {
        Ok((after, end3)) => {
            let cond_template = cond.clone();
            let body_template = body.clone();
            Ok(
                (
                    Expr::While(
                        Box::new(cond),
                        Box::new(cond_template),
                        Box::new(body),
                        Box::new(body_template),
                        Box::new(after),
                    ),
                    end3,
                ),
            )
        },
        Err(e) => Err(e),
    }
}

/// Parses an assignment, alone or followed by `;` and the rest.
#[verifier::spinoff_prover]
fn sequence_at(tokens: &Vec<Token>, pos: usize) -> (res: Result<(Expr, usize), ParserError>)
    requires
        pos <= tokens.len(),
    ensures
        parsed_view(res) == parse_sequence(toks_of(tokens@), pos as int),
        leads_on(res, pos, tokens.len()),
    decreases tokens.len() - pos, 41nat,
{
    proof {
        reveal_with_fuel(parse_sequence, 1);
        reveal_with_fuel(parse_assign, 1);
        reveal_with_fuel(parse_rest, 1);
    }
    let (first, end1) = match assign_at(tokens, pos) {
        Ok(found) => found,
        Err(e) => { return Err(e); },
    };
    if sym_ahead(tokens, end1, 0, Symbol::Semi) {
        match rest_at(tokens, end1) {
            Ok((rest, end2)) => Ok(
                (Expr::Bop(BinOp::Sequence, Box::new(first), Box::new(rest)), end2),
            ),
            Err(e) => Err(e),
        }
    } else {
        Ok((first, end1))
    }
}

/// Parses what follows a declaration, a loop or the left side of a sequence.
#[verifier::spinoff_prover]
fn rest_at(tokens: &Vec<Token>, pos: usize) -> (res: Result<(Expr, usize), ParserError>)
    requires
        pos <= tokens.len(),
    ensures
        parsed_view(res) == parse_rest(toks_of(tokens@), pos as int),
        stays_on(res, pos, tokens.len()),
    decreases tokens.len() - pos, 0nat,
{
    proof {
        reveal_with_fuel(parse_rest, 1);
        reveal_with_fuel(parse_expr, 1);
    }
    if sym_ahead(tokens, pos, 0, Symbol::Semi) {
        if term_ahead(tokens, pos, 1) {
            expr_at(tokens, pos + 1)
        } else {
            Ok((Expr::Val(Val::Undefined), pos + 1))
        }
    } else {
        Ok((Expr::Val(Val::Undefined), pos))
    }
}

/// Parses a block.
#[verifier::spinoff_prover]
fn block_at(tokens: &Vec<Token>, pos: usize) -> (res: Result<(Expr, usize), ParserError>)
    requires
        pos <= tokens.len(),
    ensures
        parsed_view(res) == parse_block(toks_of(tokens@), pos as int),
        leads_on(res, pos, tokens.len()),
    decreases tokens.len() - pos, 0nat,
{
    proof {
        reveal_with_fuel(parse_block, 1);
        reveal_with_fuel(parse_expr, 1);
    }
    if !sym_ahead(tokens, pos, 0, Symbol::LBrace) {
        return Err(fail_ahead(tokens, pos, 0));
    }
    if sym_ahead(tokens, pos, 1, Symbol::RBrace) {
        return Ok((Expr::Val(Val::Undefined), pos + 2));
    }
    let (body, end1) = match expr_at(tokens, pos + 1) {
        Ok(found) => found,
        Err(e) => { return Err(e); },
    };
    if sym_ahead(tokens, end1, 0, Symbol::RBrace) {
        Ok((body, end1 + 1))
    } else {
        Err(fail_ahead(tokens, end1, 0))
    }
}

/// Parses an assignment or a term of the next level.
#[verifier::spinoff_prover]
fn assign_at(tokens: &Vec<Token>, pos: usize) -> (res: Result<(Expr, usize), ParserError>)
    requires
        pos <= tokens.len(),
    ensures
        parsed_view(res) == parse_assign(toks_of(tokens@), pos as int),
        leads_on(res, pos, tokens.len()),
    decreases tokens.len() - pos, 39nat,
{
    proof {
        reveal_with_fuel(parse_assign, 1);
        reveal_with_fuel(parse_ternary, 1);
    }
    let (target, end1) = match ternary_at(tokens, pos) {
        Ok(found) => found,
        Err(e) => { return Err(e); },
    };
    if sym_ahead(tokens, end1, 0, Symbol::Assign) {
        match assign_at(tokens, end1 + 1) {
            Ok((source, end2)) => Ok(
                (Expr::Bop(BinOp::Assign, Box::new(target), Box::new(source)), end2),
            ),
            Err(e) => Err(e),
        }
    } else {
        Ok((target, end1))
    }
}

/// Parses a conditional `c ? t : f` or a term of the next level.
#[verifier::spinoff_prover]
fn ternary_at(tokens: &Vec<Token>, pos: usize) -> (res: Result<(Expr, usize), ParserError>)
    requires
        pos <= tokens.len(),
    ensures
        parsed_view(res) == parse_ternary(toks_of(tokens@), pos as int),
        leads_on(res, pos, tokens.len()),
    decreases tokens.len() - pos, 38nat,
{
    proof {
        reveal_with_fuel(parse_ternary, 1);
        reveal_with_fuel(parse_binary, 1);
        reveal_with_fuel(parse_expr, 1);
    }
    let (cond, end1) = match binary_at(tokens, pos, TOP_LEVEL) {
        Ok(found) => found,
        Err(e) => { return Err(e); },
    };
    if !sym_ahead(tokens, end1, 0, Symbol::Question) {
        return Ok((cond, end1));
    }
    let (yes, end2) = match expr_at(tokens, end1 + 1) {
        Ok(found) => found,
        Err(e) => { return Err(e); },
    };
    if !sym_ahead(tokens, end2, 0, Symbol::Colon) {
        return Err(fail_ahead(tokens, end2, 0));
    }
    match ternary_at(tokens, end2 + 1) {
        Ok((no, end3)) => Ok((Expr::Ternary(Box::new(cond), Box::new(yes), Box::new(no)), end3)),
        Err(e) => Err(e),
    }
}

/// Parses a chain of binary operators of one level.
#[verifier::spinoff_prover]
fn binary_at(tokens: &Vec<Token>, pos: usize, level: usize) -> (res: Result<(Expr, usize), ParserError>)
    requires
        pos <= tokens.len(),
        level <= TOP_LEVEL,
    ensures
        parsed_view(res) == parse_binary(toks_of(tokens@), pos as int, level as nat),
        leads_on(res, pos, tokens.len()),
    decreases tokens.len() - pos, 22 + 2 * level,
{
    proof {
        reveal_with_fuel(parse_binary, 1);
        reveal_with_fuel(parse_operand, 1);
        reveal_with_fuel(binary_tail, 1);
    }
    match operand_at(tokens, pos, level) {
        Ok((left, end1)) => binary_tail_at(tokens, end1, level, left),
        Err(e) => Err(e),
    }
}

/// Parses an operand of a binary operator of a level.
#[verifier::spinoff_prover]
fn operand_at(tokens: &Vec<Token>, pos: usize, level: usize) -> (res: Result<(Expr, usize), ParserError>)
    requires
        pos <= tokens.len(),
        level <= TOP_LEVEL,
    ensures
        parsed_view(res) == parse_operand(toks_of(tokens@), pos as int, level as nat),
        leads_on(res, pos, tokens.len()),
    decreases tokens.len() - pos, 21 + 2 * level,
{
    proof {
        reveal_with_fuel(parse_operand, 1);
        reveal_with_fuel(parse_unary, 1);
        reveal_with_fuel(parse_binary, 1);
    }
    if level == 0 {
        unary_at(tokens, pos)
    } else {
        binary_at(tokens, pos, level - 1)
    }
}

/// Parses the rest of a chain of a level after its operand `first`.
#[verifier::spinoff_prover]
fn binary_tail_at(tokens: &Vec<Token>, pos: usize, level: usize, first: Expr) -> (res: Result<
    (Expr, usize),
    ParserError,
>)
    requires
        pos <= tokens.len(),
        level <= TOP_LEVEL,
    ensures
        parsed_view(res) == binary_tail(toks_of(tokens@), pos as int, level as nat, first@),
        stays_on(res, pos, tokens.len()),
    decreases tokens.len() - pos, 0nat,
{
    proof {
        reveal_with_fuel(binary_tail, 1);
        reveal_with_fuel(parse_operand, 1);
    }
    let mut left = first;
    let mut p = pos;
    loop
        invariant
            pos <= p <= tokens.len(),
            level <= TOP_LEVEL,
            binary_tail(toks_of(tokens@), p as int, level as nat, left@) == binary_tail(
                toks_of(tokens@),
                pos as int,
                level as nat,
                first@,
            ),
        decreases tokens.len() - p,
    {
        proof {
            reveal_with_fuel(binary_tail, 1);
            reveal_with_fuel(parse_operand, 1);
        }
        let op = match binop_here(tokens, p, level) {
            Some(op) => op,
            None => { return Ok((left, p)); },
        };
        let (right, next) = match operand_at(tokens, p + 1, level) {
            Ok(found) => found,
            Err(e) => { return Err(e); },
        };
        left = Expr::Bop(op, Box::new(left), Box::new(right));
        p = next;
    }
}

/// Parses a term under prefix operators.
#[verifier::spinoff_prover]
fn unary_at(tokens: &Vec<Token>, pos: usize) -> (res: Result<(Expr, usize), ParserError>)
    requires
        pos <= tokens.len(),
    ensures
        parsed_view(res) == parse_unary(toks_of(tokens@), pos as int),
        leads_on(res, pos, tokens.len()),
    decreases tokens.len() - pos, 10nat,
{
    proof {
        reveal_with_fuel(parse_unary, 1);
        reveal_with_fuel(parse_postfix, 1);
    }
    let is_not = sym_ahead(tokens, pos, 0, Symbol::Bang);
    if is_not || sym_ahead(tokens, pos, 0, Symbol::Minus) {
        let op = if is_not {
            UnOp::Not
        } else {
            UnOp::Neg
        };
        match unary_at(tokens, pos + 1) {
            Ok((inner, end1)) => Ok((Expr::Uop(op, Box::new(inner)), end1)),
            Err(e) => Err(e),
        }
    } else {
        postfix_at(tokens, pos)
    }
}

/// Parses a primary term and the argument lists that follow it.
#[verifier::spinoff_prover]
fn postfix_at(tokens: &Vec<Token>, pos: usize) -> (res: Result<(Expr, usize), ParserError>)
    requires
        pos <= tokens.len(),
    ensures
        parsed_view(res) == parse_postfix(toks_of(tokens@), pos as int),
        leads_on(res, pos, tokens.len()),
    decreases tokens.len() - pos, 9nat,
{
    proof {
        reveal_with_fuel(parse_postfix, 1);
        reveal_with_fuel(parse_primary, 1);
        reveal_with_fuel(call_tail, 1);
    }
    match primary_at(tokens, pos) {
        Ok((callee, end1)) => call_tail_at(tokens, end1, callee),
        Err(e) => Err(e),
    }
}

/// Parses the argument lists that follow `first`.
#[verifier::spinoff_prover]
fn call_tail_at(tokens: &Vec<Token>, pos: usize, first: Expr) -> (res: Result<
    (Expr, usize),
    ParserError,
>)
    requires
        pos <= tokens.len(),
    ensures
        parsed_view(res) == call_tail(toks_of(tokens@), pos as int, first@),
        stays_on(res, pos, tokens.len()),
    decreases tokens.len() - pos, 0nat,
{
    proof {
        reveal_with_fuel(call_tail, 1);
        reveal_with_fuel(parse_args, 1);
    }
    let mut callee = first;
    let mut p = pos;
    loop
        invariant
            pos <= p <= tokens.len(),
            call_tail(toks_of(tokens@), p as int, callee@) == call_tail(
                toks_of(tokens@),
                pos as int,
                first@,
            ),
        decreases tokens.len() - p,
    {
        proof {
            reveal_with_fuel(call_tail, 1);
            reveal_with_fuel(parse_args, 1);
        }
        if !sym_ahead(tokens, p, 0, Symbol::LParen) {
            return Ok((callee, p));
        }
        let (args, next) = match args_at(tokens, p + 1) {
            Ok(found) => found,
            Err(e) => { return Err(e); },
        };
        callee = Expr::FnCall(Box::new(callee), args);
        p = next;
    }
}

/// Parses an argument list from behind its opening parenthesis.
#[verifier::spinoff_prover]
fn args_at(tokens: &Vec<Token>, pos: usize) -> (res: Result<(Vec<Expr>, usize), ParserError>)
    requires
        pos <= tokens.len(),
    ensures
        parsed_list_view(res) == parse_args(toks_of(tokens@), pos as int),
        leads_on(res, pos, tokens.len()),
    decreases tokens.len() - pos, 43nat,
{
    proof {
        reveal_with_fuel(parse_args, 1);
        reveal_with_fuel(parse_assign, 1);
        reveal_with_fuel(args_tail, 1);
    }
    let mut out: Vec<Expr> = Vec::new();
    if sym_ahead(tokens, pos, 0, Symbol::RParen) {
        assert(terms_of(out@) =~= Seq::<Term>::empty());
        return Ok((out, pos + 1));
    }
    match assign_at(tokens, pos) {
        Ok((first, end1)) => {
            proof {
                lemma_terms_of_push(out@, first);
                assert(terms_of(out@.push(first)) =~= seq![first@]);
            }
            out.push(first);
            args_tail_at(tokens, end1, out)
        },
        Err(e) => Err(e),
    }
}

/// Parses the rest of an argument list after the arguments `first`.
#[verifier::spinoff_prover]
fn args_tail_at(tokens: &Vec<Token>, pos: usize, first: Vec<Expr>) -> (res: Result<
    (Vec<Expr>, usize),
    ParserError,
>)
    requires
        pos <= tokens.len(),
    ensures
        parsed_list_view(res) == args_tail(toks_of(tokens@), pos as int, terms_of(first@)),
        leads_on(res, pos, tokens.len()),
    decreases tokens.len() - pos, 0nat,
{
    proof {
        reveal_with_fuel(args_tail, 1);
        reveal_with_fuel(parse_assign, 1);
    }
    let mut out = first;
    let mut p = pos;
    loop
        invariant
            pos <= p <= tokens.len(),
            args_tail(toks_of(tokens@), p as int, terms_of(out@)) == args_tail(
                toks_of(tokens@),
                pos as int,
                terms_of(first@),
            ),
        decreases tokens.len() - p,
    {
        proof {
            reveal_with_fuel(args_tail, 1);
            reveal_with_fuel(parse_assign, 1);
        }
        if sym_ahead(tokens, p, 0, Symbol::RParen) {
            return Ok((out, p + 1));
        }
        if !sym_ahead(tokens, p, 0, Symbol::Comma) {
            return Err(fail_ahead(tokens, p, 0));
        }
        let (arg, next) = match assign_at(tokens, p + 1) {
            Ok(found) => found,
            Err(e) => { return Err(e); },
        };
        proof {
            lemma_terms_of_push(out@, arg);
        }
        out.push(arg);
        p = next;
    }
}

/// Parses a primary term.
#[verifier::spinoff_prover]
fn primary_at(tokens: &Vec<Token>, pos: usize) -> (res: Result<(Expr, usize), ParserError>)
    requires
        pos <= tokens.len(),
    ensures
        parsed_view(res) == parse_primary(toks_of(tokens@), pos as int),
        leads_on(res, pos, tokens.len()),
    decreases tokens.len() - pos, 8nat,
{
    proof {
        reveal_with_fuel(parse_primary, 1);
        reveal_with_fuel(parse_paren, 1);
        reveal_with_fuel(parse_fn_literal, 1);
        reveal_with_fuel(parse_if, 1);
        reveal_with_fuel(parse_print, 1);
    }
    if pos >= tokens.len() {
        return Err(fail_ahead(tokens, pos, 0));
    }
    match &tokens[pos] {
        Token::Integer(n) => Ok((Expr::Val(Val::Int(*n)), pos + 1)),
        Token::Ident(x) => Ok((Expr::Var(x.clone()), pos + 1)),
        Token::Sym(Symbol::True) => Ok((Expr::Val(Val::Bool(true)), pos + 1)),
        Token::Sym(Symbol::False) => Ok((Expr::Val(Val::Bool(false)), pos + 1)),
        Token::Sym(Symbol::LParen) => paren_at(tokens, pos),
        Token::Sym(Symbol::Fn) => fn_literal_at(tokens, pos),
        Token::Sym(Symbol::If) => if_at(tokens, pos + 1),
        Token::Sym(Symbol::Print) => print_at(tokens, pos),
        _ => Err(fail_ahead(tokens, pos, 0)),
    }
}

/// Parses a term in parentheses from the opening parenthesis.
#[verifier::spinoff_prover]
fn paren_at(tokens: &Vec<Token>, pos: usize) -> (res: Result<(Expr, usize), ParserError>)
    requires
        pos <= tokens.len(),
        sym_at(toks_of(tokens@), pos as int, Symbol::LParen),
    ensures
        parsed_view(res) == parse_paren(toks_of(tokens@), pos as int),
        leads_on(res, pos, tokens.len()),
    decreases tokens.len() - pos, 0nat,
{
    proof {
        reveal_with_fuel(parse_paren, 1);
        reveal_with_fuel(parse_expr, 1);
    }
    let (inner, end1) = match expr_at(tokens, pos + 1) {
        Ok(found) => found,
        Err(e) => { return Err(e); },
    };
    if sym_ahead(tokens, end1, 0, Symbol::RParen) {
        Ok((inner, end1 + 1))
    } else {
        Err(fail_ahead(tokens, end1, 0))
    }
}

/// Parses a function literal from its keyword.
#[verifier::spinoff_prover]
fn fn_literal_at(tokens: &Vec<Token>, pos: usize) -> (res: Result<(Expr, usize), ParserError>)
    requires
        pos <= tokens.len(),
        pos < tokens.len(),
    ensures
        parsed_view(res) == parse_fn_literal(toks_of(tokens@), pos as int),
        leads_on(res, pos, tokens.len()),
    decreases tokens.len() - pos, 0nat,
{
    proof {
        reveal_with_fuel(parse_fn_literal, 1);
        reveal_with_fuel(parse_block, 1);
    }
    if !sym_ahead(tokens, pos, 1, Symbol::LParen) {
        return Err(fail_ahead(tokens, pos, 1));
    }
    let (ps, end1) = match params(tokens, pos + 2) {
        Ok(found) => found,
        Err(e) => { return Err(e); },
    };
    match block_at(tokens, end1) {
        Ok((body, end2)) => Ok((Expr::Val(Val::Func(None, Box::new(body), ps)), end2)),
        Err(e) => Err(e),
    }
}

/// Parses a print from its keyword.
#[verifier::spinoff_prover]
fn print_at(tokens: &Vec<Token>, pos: usize) -> (res: Result<(Expr, usize), ParserError>)
    requires
        pos <= tokens.len(),
        pos < tokens.len(),
    ensures
        parsed_view(res) == parse_print(toks_of(tokens@), pos as int),
        leads_on(res, pos, tokens.len()),
    decreases tokens.len() - pos, 0nat,
{
    proof {
        reveal_with_fuel(parse_print, 1);
        reveal_with_fuel(parse_expr, 1);
    }
    if !sym_ahead(tokens, pos, 1, Symbol::LParen) {
        return Err(fail_ahead(tokens, pos, 1));
    }
    let (inner, end1) = match expr_at(tokens, pos + 2) {
        Ok(found) => found,
        Err(e) => { return Err(e); },
    };
    if sym_ahead(tokens, end1, 0, Symbol::RParen) {
        Ok((Expr::Print(Box::new(inner)), end1 + 1))
    } else {
        Err(fail_ahead(tokens, end1, 0))
    }
}

/// Parses a conditional from behind its `if`.
#[verifier::spinoff_prover]
fn if_at(tokens: &Vec<Token>, pos: usize) -> (res: Result<(Expr, usize), ParserError>)
    requires
        pos <= tokens.len(),
    ensures
        parsed_view(res) == parse_if(toks_of(tokens@), pos as int),
        leads_on(res, pos, tokens.len()),
    decreases tokens.len() - pos, 0nat,
{
    proof {
        reveal_with_fuel(parse_if, 1);
        reveal_with_fuel(parse_expr, 1);
        reveal_with_fuel(parse_block, 1);
        reveal_with_fuel(parse_else, 1);
    }
    if !sym_ahead(tokens, pos, 0, Symbol::LParen) {
        return Err(fail_ahead(tokens, pos, 0));
    }
    let (cond, end1) = match expr_at(tokens, pos + 1) {
        Ok(found) => found,
        Err(e) => { return Err(e); },
    };
    if !sym_ahead(tokens, end1, 0, Symbol::RParen) {
        return Err(fail_ahead(tokens, end1, 0));
    }
    let (yes, end2) = match block_at(tokens, end1 + 1) {
        Ok(found) => found,
        Err(e) => { return Err(e); },
    };
    match else_at(tokens, end2) {
        Ok((no, end3)) => Ok((Expr::Ternary(Box::new(cond), Box::new(yes), Box::new(no)), end3)),
        Err(e) => Err(e),
    }
}

/// Parses the other branch of a conditional.
#[verifier::spinoff_prover]
fn else_at(tokens: &Vec<Token>, pos: usize) -> (res: Result<(Expr, usize), ParserError>)
    requires
        pos <= tokens.len(),
    ensures
        parsed_view(res) == parse_else(toks_of(tokens@), pos as int),
        stays_on(res, pos, tokens.len()),
    decreases tokens.len() - pos, 0nat,
{
    proof {
        reveal_with_fuel(parse_else, 1);
        reveal_with_fuel(parse_if, 1);
        reveal_with_fuel(parse_block, 1);
    }
    if sym_ahead(tokens, pos, 0, Symbol::Else) {
        if sym_ahead(tokens, pos, 1, Symbol::If) {
            if_at(tokens, pos + 2)
        } else {
            block_at(tokens, pos + 1)
        }
    } else {
        Ok((Expr::Val(Val::Undefined), pos))
    }
}

/// A parser: the tokens of a source text, and the position among them up to
/// which they have been parsed.
pub struct Parser {
    tokens: Vec<Token>,
    pos: usize,
}

impl Parser {
    #[verifier::type_invariant]
    spec fn inv(self) -> bool {
        self.pos <= self.tokens@.len()
    }

    /// The tokens of the source text.
    pub closed spec fn tokens(&self) -> Seq<Tok> {
        toks_of(self.tokens@)
    }

    /// The index of the first token that has not been parsed yet.
    pub closed spec fn position(&self) -> int {
        self.pos as int
    }

    /// A parser at the first token of `text`.
    pub fn new(text: String) -> (res: Parser)
        ensures
            res.tokens() == tokens_of(text@),
            res.position() == 0,
    {
        let mut lexer = Lexer::new(text);
        let tokens = lexer.tokenize();
        Parser { tokens, pos: 0 }
    }

    /// Parses the term that begins at the position, and moves the position
    /// behind it. Where there is none, the position stays.
    pub fn expr(&mut self) -> (res: Result<Expr, ParserError>)
        ensures
            final(self).tokens() == old(self).tokens(),
            match res {
                Ok(e) => parse_expr(old(self).tokens(), old(self).position()) == Ok::<
                    (Term, int),
                    ParserError,
                >((e@, final(self).position())),
                Err(err) => parse_expr(old(self).tokens(), old(self).position()) == Err::<
                    (Term, int),
                    ParserError,
                >(err) && final(self).position() == old(self).position(),
            },
            res matches Ok(e) ==> scope_free(e@),
    {
        proof {
            use_type_invariant(&*self);
            law_parsed_terms(self.tokens(), self.position());
        }
        match expr_at(&self.tokens, self.pos) {
            Ok((e, next)) => {
                self.pos = next;
                Ok(e)
            },
            Err(err) => Err(err),
        }
    }
}

/// Parses a source text: the term that the text begins with is returned, and
/// what follows that term is not looked at.
pub fn parse(input: &str) -> (res: Result<Expr, ParserError>)
    ensures
        match res {
            Ok(e) => parse_of(input@) == Ok::<Term, ParserError>(e@),
            Err(err) => parse_of(input@) == Err::<Term, ParserError>(err),
        },
        res matches Ok(e) ==> scope_free(e@),
{
    let mut parser = Parser::new(String::from_str(input));
    parser.expr()
}

} // verus!
