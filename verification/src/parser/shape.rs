//! What holds of every term that the grammar yields: it takes at least one
//! token, and it holds no scope marker.
use crate::expr::{Dec, Term, Value};
use crate::parser::grammar::{
    args_tail, binary_tail, binop_at, call_tail, function_decl, onward, onward_list, params_tail,
    parse_args, parse_assign, parse_binary, parse_binding, parse_block, parse_else, parse_expr,
    parse_fn_decl, parse_fn_literal, parse_if, parse_of, parse_operand, parse_params, parse_paren,
    parse_postfix, parse_primary, parse_print, parse_rest, parse_sequence, parse_ternary,
    parse_unary, parse_while, starts_term, sym_at, Parsed, ParsedList, TOP_LEVEL,
};
use crate::parser::lexer::tokens_of;
use crate::parser::token::{Symbol, Tok};
use crate::scoping::{all_scope_free, scope_free};
use vstd::prelude::*;

verus! {

/// A successful result leads on from `pos`, by `least` tokens or more, stays
/// within the tokens, and its term is scope-free.
pub open spec fn sound(toks: Seq<Tok>, pos: int, least: int, r: Parsed) -> bool {
    r matches Ok((t, next)) ==> pos + least <= next <= toks.len() && scope_free(t)
}

/// As `sound`, for a list.
pub open spec fn sound_list(toks: Seq<Tok>, pos: int, r: ParsedList) -> bool {
    r matches Ok((ts, next)) ==> pos < next <= toks.len() && all_scope_free(ts)
}

proof fn lemma_params_tail(toks: Seq<Tok>, pos: int, acc: Seq<Term>)
    requires
        0 <= pos <= toks.len(),
        all_scope_free(acc),
    ensures
        sound_list(toks, pos, params_tail(toks, pos, acc)),
    decreases toks.len() - pos,
{
    if !sym_at(toks, pos, Symbol::RParen) && sym_at(toks, pos, Symbol::Comma) {
        if 0 <= pos + 1 < toks.len() && toks[pos + 1] is Ident {
            let more = acc.push(Term::Var(toks[pos + 1]->Ident_0));
            assert(scope_free(Term::Var(toks[pos + 1]->Ident_0)));
            assert(all_scope_free(more)) by {
                assert forall|i: int| 0 <= i < more.len() implies scope_free(#[trigger] more[i]) by {
                    if i < acc.len() {
                        assert(more[i] == acc[i]);
                    }
                }
            }
            lemma_params_tail(toks, pos + 2, more);
        }
    }
}

proof fn lemma_params(toks: Seq<Tok>, pos: int)
    requires
        0 <= pos <= toks.len(),
    ensures
        sound_list(toks, pos, parse_params(toks, pos)),
{
    if !sym_at(toks, pos, Symbol::RParen) && 0 <= pos < toks.len() && toks[pos] is Ident {
        let first = seq![Term::Var(toks[pos]->Ident_0)];
        assert(scope_free(Term::Var(toks[pos]->Ident_0)));
        assert(all_scope_free(first));
        lemma_params_tail(toks, pos + 1, first);
    }
}

#[verifier::spinoff_prover]
proof fn lemma_expr(toks: Seq<Tok>, pos: int)
    requires
        0 <= pos <= toks.len(),
    ensures
        sound(toks, pos, 1, parse_expr(toks, pos)),
    decreases toks.len() - pos, 42nat,
{
    reveal_with_fuel(parse_expr, 1);
    if sym_at(toks, pos, Symbol::Let) {
        lemma_binding(toks, pos, Dec::DConst);
    } else if sym_at(toks, pos, Symbol::Var) {
        lemma_binding(toks, pos, Dec::DVar);
    } else if sym_at(toks, pos, Symbol::Fn) && 0 <= pos + 1 < toks.len() && toks[pos + 1] is Ident {
        lemma_fn_decl(toks, pos);
    } else if sym_at(toks, pos, Symbol::While) {
        lemma_while(toks, pos);
    } else {
        lemma_sequence(toks, pos);
    }
}

#[verifier::spinoff_prover]
proof fn lemma_binding(toks: Seq<Tok>, pos: int, kind: Dec)
    requires
        0 <= pos <= toks.len(),
    ensures
        sound(toks, pos, 1, parse_binding(toks, pos, kind)),
    decreases toks.len() - pos, 41nat,
{
    reveal_with_fuel(parse_binding, 1);
    if 0 <= pos + 1 < toks.len() && toks[pos + 1] is Ident && sym_at(toks, pos + 2, Symbol::Assign) {
        assert(scope_free(Term::Var(toks[pos + 1]->Ident_0)));
        lemma_assign(toks, pos + 3);
        if let Ok((init, end1)) = onward(toks, pos + 3, parse_assign(toks, pos + 3)) {
            lemma_rest(toks, end1);
        }
    }
}

#[verifier::spinoff_prover]
proof fn lemma_fn_decl(toks: Seq<Tok>, pos: int)
    requires
        0 <= pos <= toks.len(),
    ensures
        sound(toks, pos, 1, parse_fn_decl(toks, pos)),
    decreases toks.len() - pos, 41nat,
{
    reveal_with_fuel(parse_fn_decl, 1);
    if 0 <= pos + 1 < toks.len() && toks[pos + 1] is Ident && sym_at(toks, pos + 2, Symbol::LParen) {
        let name = toks[pos + 1]->Ident_0;
        lemma_params(toks, pos + 3);
        if let Ok((params, end1)) = onward_list(toks, pos + 3, parse_params(toks, pos + 3)) {
            lemma_block(toks, end1);
            if let Ok((body, end2)) = onward(toks, end1, parse_block(toks, end1)) {
                lemma_rest(toks, end2);
                if let Ok((rest, end3)) = parse_rest(toks, end2) {
                    assert(scope_free(Term::Var(name)));
                    assert(scope_free(
                        Term::Val(Value::Func(Some(Box::new(Term::Var(name))), Box::new(body), params)),
                    ));
                    assert(scope_free(function_decl(name, params, body, rest)));
                }
            }
        }
    }
}

#[verifier::spinoff_prover]
proof fn lemma_while(toks: Seq<Tok>, pos: int)
    requires
        0 <= pos <= toks.len(),
    ensures
        sound(toks, pos, 1, parse_while(toks, pos)),
    decreases toks.len() - pos, 41nat,
{
    reveal_with_fuel(parse_while, 1);
    if sym_at(toks, pos + 1, Symbol::LParen) {
        lemma_expr(toks, pos + 2);
        if let Ok((cond, end1)) = onward(toks, pos + 2, parse_expr(toks, pos + 2)) {
            if sym_at(toks, end1, Symbol::RParen) {
                lemma_block(toks, end1 + 1);
                if let Ok((body, end2)) = onward(toks, end1 + 1, parse_block(toks, end1 + 1)) {
                    lemma_rest(toks, end2);
                }
            }
        }
    }
}

#[verifier::spinoff_prover]
proof fn lemma_sequence(toks: Seq<Tok>, pos: int)
    requires
        0 <= pos <= toks.len(),
    ensures
        sound(toks, pos, 1, parse_sequence(toks, pos)),
    decreases toks.len() - pos, 41nat,
{
    reveal_with_fuel(parse_sequence, 1);
    lemma_assign(toks, pos);
    if let Ok((first, end1)) = onward(toks, pos, parse_assign(toks, pos)) {
        if sym_at(toks, end1, Symbol::Semi) {
            lemma_rest(toks, end1);
        }
    }
}

#[verifier::spinoff_prover]
proof fn lemma_rest(toks: Seq<Tok>, pos: int)
    requires
        0 <= pos <= toks.len(),
    ensures
        sound(toks, pos, 0, parse_rest(toks, pos)),
    decreases toks.len() - pos, 0nat,
{
    reveal_with_fuel(parse_rest, 1);
    assert(scope_free(Term::Val(Value::Undefined)));
    if sym_at(toks, pos, Symbol::Semi) && starts_term(toks, pos + 1) {
        lemma_expr(toks, pos + 1);
    }
}

#[verifier::spinoff_prover]
proof fn lemma_block(toks: Seq<Tok>, pos: int)
    requires
        0 <= pos <= toks.len(),
    ensures
        sound(toks, pos, 1, parse_block(toks, pos)),
    decreases toks.len() - pos, 0nat,
{
    reveal_with_fuel(parse_block, 1);
    assert(scope_free(Term::Val(Value::Undefined)));
    if sym_at(toks, pos, Symbol::LBrace) && !sym_at(toks, pos + 1, Symbol::RBrace) {
        lemma_expr(toks, pos + 1);
    }
}

#[verifier::spinoff_prover]
proof fn lemma_assign(toks: Seq<Tok>, pos: int)
    requires
        0 <= pos <= toks.len(),
    ensures
        sound(toks, pos, 1, parse_assign(toks, pos)),
    decreases toks.len() - pos, 39nat,
{
    reveal_with_fuel(parse_assign, 1);
    lemma_ternary(toks, pos);
    if let Ok((target, end1)) = onward(toks, pos, parse_ternary(toks, pos)) {
        if sym_at(toks, end1, Symbol::Assign) {
            lemma_assign(toks, end1 + 1);
        }
    }
}

#[verifier::spinoff_prover]
proof fn lemma_ternary(toks: Seq<Tok>, pos: int)
    requires
        0 <= pos <= toks.len(),
    ensures
        sound(toks, pos, 1, parse_ternary(toks, pos)),
    decreases toks.len() - pos, 38nat,
{
    reveal_with_fuel(parse_ternary, 1);
    lemma_binary(toks, pos, TOP_LEVEL as nat);
    if let Ok((cond, end1)) = onward(toks, pos, parse_binary(toks, pos, TOP_LEVEL as nat)) {
        if sym_at(toks, end1, Symbol::Question) {
            lemma_expr(toks, end1 + 1);
            if let Ok((yes, end2)) = onward(toks, end1 + 1, parse_expr(toks, end1 + 1)) {
                if sym_at(toks, end2, Symbol::Colon) {
                    lemma_ternary(toks, end2 + 1);
                }
            }
        }
    }
}

#[verifier::spinoff_prover]
proof fn lemma_binary(toks: Seq<Tok>, pos: int, level: nat)
    requires
        0 <= pos <= toks.len(),
    ensures
        sound(toks, pos, 1, parse_binary(toks, pos, level)),
    decreases toks.len() - pos, 22 + 2 * level,
{
    reveal_with_fuel(parse_binary, 1);
    if level <= TOP_LEVEL {
        lemma_operand(toks, pos, level);
        if let Ok((left, end1)) = onward(toks, pos, parse_operand(toks, pos, level)) {
            lemma_binary_tail(toks, end1, level, left);
        }
    }
}

#[verifier::spinoff_prover]
proof fn lemma_operand(toks: Seq<Tok>, pos: int, level: nat)
    requires
        0 <= pos <= toks.len(),
    ensures
        sound(toks, pos, 1, parse_operand(toks, pos, level)),
    decreases toks.len() - pos, 21 + 2 * level,
{
    reveal_with_fuel(parse_operand, 1);
    if level == 0 {
        lemma_unary(toks, pos);
    } else if level <= TOP_LEVEL {
        lemma_binary(toks, pos, (level - 1) as nat);
    }
}

#[verifier::spinoff_prover]
proof fn lemma_binary_tail(toks: Seq<Tok>, pos: int, level: nat, left: Term)
    requires
        0 <= pos <= toks.len(),
        scope_free(left),
    ensures
        sound(toks, pos, 0, binary_tail(toks, pos, level, left)),
    decreases toks.len() - pos, 0nat,
{
    reveal_with_fuel(binary_tail, 1);
    if let Some(op) = binop_at(toks, pos, level) {
        lemma_operand(toks, pos + 1, level);
        if let Ok((right, end1)) = onward(toks, pos + 1, parse_operand(toks, pos + 1, level)) {
            lemma_binary_tail(toks, end1, level, Term::Bop(op, Box::new(left), Box::new(right)));
        }
    }
}

#[verifier::spinoff_prover]
proof fn lemma_unary(toks: Seq<Tok>, pos: int)
    requires
        0 <= pos <= toks.len(),
    ensures
        sound(toks, pos, 1, parse_unary(toks, pos)),
    decreases toks.len() - pos, 10nat,
{
    reveal_with_fuel(parse_unary, 1);
    if sym_at(toks, pos, Symbol::Bang) || sym_at(toks, pos, Symbol::Minus) {
        lemma_unary(toks, pos + 1);
    } else {
        lemma_postfix(toks, pos);
    }
}

#[verifier::spinoff_prover]
proof fn lemma_postfix(toks: Seq<Tok>, pos: int)
    requires
        0 <= pos <= toks.len(),
    ensures
        sound(toks, pos, 1, parse_postfix(toks, pos)),
    decreases toks.len() - pos, 9nat,
{
    reveal_with_fuel(parse_postfix, 1);
    lemma_primary(toks, pos);
    if let Ok((callee, end1)) = onward(toks, pos, parse_primary(toks, pos)) {
        lemma_call_tail(toks, end1, callee);
    }
}

#[verifier::spinoff_prover]
proof fn lemma_call_tail(toks: Seq<Tok>, pos: int, callee: Term)
    requires
        0 <= pos <= toks.len(),
        scope_free(callee),
    ensures
        sound(toks, pos, 0, call_tail(toks, pos, callee)),
    decreases toks.len() - pos, 0nat,
{
    reveal_with_fuel(call_tail, 1);
    if sym_at(toks, pos, Symbol::LParen) {
        lemma_args(toks, pos + 1);
        if let Ok((args, end1)) = onward_list(toks, pos + 1, parse_args(toks, pos + 1)) {
            lemma_call_tail(toks, end1, Term::FnCall(Box::new(callee), args));
        }
    }
}

#[verifier::spinoff_prover]
proof fn lemma_args(toks: Seq<Tok>, pos: int)
    requires
        0 <= pos <= toks.len(),
    ensures
        sound_list(toks, pos, parse_args(toks, pos)),
    decreases toks.len() - pos, 43nat,
{
    reveal_with_fuel(parse_args, 1);
    if !sym_at(toks, pos, Symbol::RParen) {
        lemma_assign(toks, pos);
        if let Ok((arg, end1)) = onward(toks, pos, parse_assign(toks, pos)) {
            assert(all_scope_free(seq![arg]));
            lemma_args_tail(toks, end1, seq![arg]);
        }
    }
}

#[verifier::spinoff_prover]
proof fn lemma_args_tail(toks: Seq<Tok>, pos: int, acc: Seq<Term>)
    requires
        0 <= pos <= toks.len(),
        all_scope_free(acc),
    ensures
        sound_list(toks, pos, args_tail(toks, pos, acc)),
    decreases toks.len() - pos, 0nat,
{
    reveal_with_fuel(args_tail, 1);
    if !sym_at(toks, pos, Symbol::RParen) && sym_at(toks, pos, Symbol::Comma) {
        lemma_assign(toks, pos + 1);
        if let Ok((arg, end1)) = onward(toks, pos + 1, parse_assign(toks, pos + 1)) {
            let more = acc.push(arg);
            assert(all_scope_free(more)) by {
                assert forall|i: int| 0 <= i < more.len() implies scope_free(#[trigger] more[i]) by {
                    if i < acc.len() {
                        assert(more[i] == acc[i]);
                    }
                }
            }
            lemma_args_tail(toks, end1, more);
        }
    }
}

#[verifier::spinoff_prover]
proof fn lemma_primary(toks: Seq<Tok>, pos: int)
    requires
        0 <= pos <= toks.len(),
    ensures
        sound(toks, pos, 1, parse_primary(toks, pos)),
    decreases toks.len() - pos, 8nat,
{
    reveal_with_fuel(parse_primary, 1);
    if 0 <= pos < toks.len() {
        match toks[pos] {
            Tok::Sym(Symbol::LParen) => {
                lemma_paren(toks, pos);
            },
            Tok::Sym(Symbol::Fn) => {
                lemma_fn_literal(toks, pos);
            },
            Tok::Sym(Symbol::If) => {
                lemma_if(toks, pos + 1);
            },
            Tok::Sym(Symbol::Print) => {
                lemma_print(toks, pos);
            },
            _ => {},
        }
    }
}

#[verifier::spinoff_prover]
proof fn lemma_paren(toks: Seq<Tok>, pos: int)
    requires
        0 <= pos <= toks.len(),
    ensures
        sound(toks, pos, 1, parse_paren(toks, pos)),
    decreases toks.len() - pos, 0nat,
{
    reveal_with_fuel(parse_paren, 1);
    if sym_at(toks, pos, Symbol::LParen) {
        lemma_expr(toks, pos + 1);
    }
}

#[verifier::spinoff_prover]
proof fn lemma_fn_literal(toks: Seq<Tok>, pos: int)
    requires
        0 <= pos <= toks.len(),
    ensures
        sound(toks, pos, 1, parse_fn_literal(toks, pos)),
    decreases toks.len() - pos, 0nat,
{
    reveal_with_fuel(parse_fn_literal, 1);
    if sym_at(toks, pos + 1, Symbol::LParen) {
        lemma_params(toks, pos + 2);
        if let Ok((params, end1)) = onward_list(toks, pos + 2, parse_params(toks, pos + 2)) {
            lemma_block(toks, end1);
        }
    }
}

#[verifier::spinoff_prover]
proof fn lemma_print(toks: Seq<Tok>, pos: int)
    requires
        0 <= pos <= toks.len(),
    ensures
        sound(toks, pos, 1, parse_print(toks, pos)),
    decreases toks.len() - pos, 0nat,
{
    reveal_with_fuel(parse_print, 1);
    if sym_at(toks, pos + 1, Symbol::LParen) {
        lemma_expr(toks, pos + 2);
    }
}

#[verifier::spinoff_prover]
proof fn lemma_if(toks: Seq<Tok>, pos: int)
    requires
        0 <= pos <= toks.len(),
    ensures
        sound(toks, pos, 1, parse_if(toks, pos)),
    decreases toks.len() - pos, 0nat,
{
    reveal_with_fuel(parse_if, 1);
    if sym_at(toks, pos, Symbol::LParen) {
        lemma_expr(toks, pos + 1);
        if let Ok((cond, end1)) = onward(toks, pos + 1, parse_expr(toks, pos + 1)) {
            if sym_at(toks, end1, Symbol::RParen) {
                lemma_block(toks, end1 + 1);
                if let Ok((yes, end2)) = onward(toks, end1 + 1, parse_block(toks, end1 + 1)) {
                    lemma_else(toks, end2);
                }
            }
        }
    }
}

#[verifier::spinoff_prover]
proof fn lemma_else(toks: Seq<Tok>, pos: int)
    requires
        0 <= pos <= toks.len(),
    ensures
        sound(toks, pos, 0, parse_else(toks, pos)),
    decreases toks.len() - pos, 0nat,
{
    reveal_with_fuel(parse_else, 1);
    assert(scope_free(Term::Val(Value::Undefined)));
    if sym_at(toks, pos, Symbol::Else) {
        if sym_at(toks, pos + 1, Symbol::If) {
            lemma_if(toks, pos + 2);
        } else {
            lemma_block(toks, pos + 1);
        }
    }
}

/// Every term that the grammar yields is scope-free: no source text denotes
/// a scope marker. And a term takes at least one token, so that the grammar
/// never turns a result into a failure for not leading on.
pub proof fn law_parsed_terms(toks: Seq<Tok>, pos: int)
    requires
        0 <= pos <= toks.len(),
    ensures
        parse_expr(toks, pos) matches Ok((t, next)) ==> pos < next <= toks.len() && scope_free(t),
        onward(toks, pos, parse_expr(toks, pos)) == parse_expr(toks, pos),
{
    lemma_expr(toks, pos);
}

/// The term that a source text denotes is scope-free.
pub proof fn law_source_terms(source: Seq<char>)
    ensures
        parse_of(source) matches Ok(t) ==> scope_free(t),
{
    law_parsed_terms(tokens_of(source), 0);
}

} // verus!
