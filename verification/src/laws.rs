//! What holds of evaluation on every machine and every term.
use crate::expr::{BinOp, Expr, Term, Value};
use crate::interpreter::{declared_by_source, eval_source, Interpreter};
use crate::names::{declared_at_top, leaves_names, lemma_run_names};
use crate::parser::grammar::parse_of;
use crate::parser::shape::law_source_terms;
use crate::runtime_error::Failure;
use crate::semantics::{
    arith, eval_of, first_non_value, in_range, modulus, run_of, step_of, trunc_rem, Machine,
    ITERATION_CAP,
};
use crate::scoping::{
    env_scope_free, lemma_bind_params_failure, lemma_first_non_value, lemma_run_scoped,
    lemma_scope_free, lemma_step_keeps_global_frame, lemma_step_scoped, pending, scope_free,
    well_scoped,
};
use crate::state::{env_find, Cell};
use vstd::prelude::*;

verus! {

/// A value evaluates to itself, on every machine and within every limit, and
/// leaves the machine as it is; and a value cannot be stepped.
pub proof fn law_value_idempotence(m: Machine, v: Value, limit: nat)
    ensures
        eval_of(m, Term::Val(v), limit) == (m, Ok::<Term, Failure>(Term::Val(v))),
        step_of(m, Term::Val(v)) == (
            m,
            Err::<Term, Failure>(Failure::SteppingOnValue(Term::Val(v))),
        ),
{
}

/// Evaluation is a function of the machine and the term: two interpreters
/// with the same model, given terms with the same model, or the same source
/// text, come to the same outcome.
pub proof fn law_determinism(
    a: Interpreter,
    b: Interpreter,
    e1: Expr,
    e2: Expr,
    source: Seq<char>,
    limit: nat,
)
    requires
        a@ == b@,
        e1@ == e2@,
    ensures
        step_of(a@, e1@) == step_of(b@, e2@),
        eval_of(a@, e1@, limit) == eval_of(b@, e2@, limit),
        eval_source(a@, source) == eval_source(b@, source),
{
}

/// The failures that a step on a term that is no value can end in.
pub open spec fn is_step_failure(f: Failure) -> bool {
    f is VariableNotFound || f is InvalidConstAssignment || f is InvalidTypeConversion
        || f is InvalidMemoryState || f is IntegerOverflow || f is IntegerUnderflow
}

/// Progress: a step on a term that is no value yields a term, or fails with
/// one of the failures of reduction. It never fails for having stepped on a
/// value, for want of iterations or on behalf of the parser; and it fails
/// for a name that was not found only where no frame binds that name.
pub proof fn law_progress(m: Machine, t: Term)
    requires
        !(t is Val),
    ensures
        step_of(m, t).1 matches Err(f) ==> is_step_failure(f),
        step_of(m, t).1 matches Err(Failure::VariableNotFound(x)) ==> env_find(m.env, x) < 0,
    decreases t,
{
    match t {
        Term::Val(_) => {},
        Term::Var(_) => {},
        Term::Uop(op, a) => {
            if !(*a is Val) {
                law_progress(m, *a);
            }
        },
        Term::Bop(op, a, b) => {
            if op == BinOp::Sequence && *a is Val {
            } else if op == BinOp::Assign && *a is Var && *b is Val {
            } else if *a is Val && *b is Val {
            } else if *a is Val || (op == BinOp::Assign && *a is Var) {
                law_progress(m, *b);
            } else {
                law_progress(m, *a);
            }
        },
        Term::Ternary(c, _, _) => {
            if !(*c is Val) {
                law_progress(m, *c);
            }
        },
        Term::While(c, _, b, _, _) => {
            if *c == Term::Val(Value::Bool(true)) || *c == Term::Val(Value::Bool(false)) {
            } else if *b is Val {
                if !(*c is Val) {
                    law_progress(m, *c);
                }
            } else {
                law_progress(m, *b);
            }
        },
        Term::Decl(_, _, init, _) => {
            if !(*init is Val) {
                law_progress(m, *init);
            }
        },
        Term::FnCall(callee, args) => {
            match *callee {
                Term::Val(Value::Func(name, body, params)) => {
                    let i = first_non_value(args, 0);
                    if 0 <= i < args.len() {
                        lemma_first_non_value(args, 0);
                        law_progress(m, args[i]);
                    } else {
                        lemma_bind_params_failure(
                            m.env.push(Map::<Seq<char>, Cell>::empty()),
                            params,
                            args,
                            0,
                        );
                    }
                },
                Term::Val(_) => {},
                _ => {
                    law_progress(m, *callee);
                },
            }
        },
        Term::Scope(a) => {
            if !(*a is Val) {
                law_progress(m, *a);
            }
        },
        Term::Print(a) => {
            if !(*a is Val) {
                law_progress(m, *a);
            }
        },
    }
}

/// The failures that the evaluation of a scope-free term can end in.
pub open spec fn is_source_failure(f: Failure) -> bool {
    f is VariableNotFound || f is InvalidConstAssignment || f is InvalidTypeConversion
        || f is IntegerOverflow || f is IntegerUnderflow || f is TooManyIterations
}

/// Evaluation of a well-scoped term, on a scope-free environment with more
/// frames than the term has scope markers pending, fails with nothing but
/// the failures of scope-free terms.
proof fn lemma_run_failures(m: Machine, t: Term, left: nat, limit: nat)
    requires
        well_scoped(t),
        env_scope_free(m.env),
        m.env.len() > pending(t),
    ensures
        run_of(m, t, left, limit).1 matches Err(f) ==> is_source_failure(f),
    decreases left,
{
    if !(t is Val) && left > 0 {
        law_progress(m, t);
        lemma_step_keeps_global_frame(m, t);
        lemma_step_scoped(m, t);
        let (m1, r) = step_of(m, t);
        if let Ok(t1) = r {
            lemma_run_failures(m1, t1, (left - 1) as nat, limit);
        }
    }
}

/// Progress of evaluation: the evaluation of a scope-free term, such as a
/// source text denotes, on an environment whose values are scope-free comes
/// to a value, or fails for a name, a constant, a kind of term, an integer
/// out of range or the limit. It never steps on a value, and never pops the
/// global frame.
pub proof fn law_source_progress(m: Machine, t: Term, limit: nat)
    requires
        scope_free(t),
        env_scope_free(m.env),
        m.env.len() >= 1,
    ensures
        eval_of(m, t, limit).1 matches Err(f) ==> is_source_failure(f),
{
    lemma_scope_free(t);
    lemma_run_failures(m, t, limit, limit);
}

/// Scope balance: where the evaluation of a scope-free term, such as a
/// source text denotes, on an environment whose values are scope-free comes
/// to a value, the environment has as many frames after it as before: each
/// frame that a call has pushed has been popped. Whether or not the
/// evaluation comes to a value, the values of the environment are
/// scope-free after it, so that the next evaluation is balanced too.
pub proof fn law_scope_balance(m: Machine, t: Term, limit: nat)
    requires
        scope_free(t),
        env_scope_free(m.env),
        m.env.len() >= 1,
    ensures
        eval_of(m, t, limit).1 is Ok ==> eval_of(m, t, limit).0.env.len() == m.env.len(),
        env_scope_free(eval_of(m, t, limit).0.env),
{
    lemma_scope_free(t);
    lemma_run_scoped(m, t, limit, limit);
}

/// The names of the frames after evaluation: where the evaluation of a
/// scope-free term on an environment whose values are scope-free comes to a
/// value, each frame below the innermost binds the names that it bound
/// before, and the innermost binds those and the names that the term has
/// declared at the top level, that is, while no call was under way. No
/// parameter, no name of a function bound for its own call and no
/// declaration made within a call stays bound: they were bound in the frame
/// of their call, which has been popped.
pub proof fn law_scope_names(m: Machine, t: Term, limit: nat)
    requires
        scope_free(t),
        env_scope_free(m.env),
        m.env.len() >= 1,
    ensures
        eval_of(m, t, limit).1 is Ok ==> leaves_names(
            m.env,
            m.env.len() as int,
            eval_of(m, t, limit).0.env,
            declared_at_top(m, t, limit),
        ),
{
    lemma_scope_free(t);
    lemma_run_names(m, t, limit, limit);
}

/// Scope balance and progress of source texts: on an environment whose
/// values are scope-free, the evaluation of a source text leaves them so.
/// Where it comes to a value, it leaves as many frames as it found, with the
/// names they bound and, in the innermost, those that the text has declared
/// at the top level. Where it fails, it fails on behalf of the parser or
/// with one of the failures of scope-free terms.
pub proof fn law_source_evaluation(m: Machine, source: Seq<char>)
    requires
        env_scope_free(m.env),
        m.env.len() >= 1,
    ensures
        env_scope_free(eval_source(m, source).0.env),
        eval_source(m, source).1 is Ok ==> eval_source(m, source).0.env.len() == m.env.len(),
        eval_source(m, source).1 is Ok ==> leaves_names(
            m.env,
            m.env.len() as int,
            eval_source(m, source).0.env,
            declared_by_source(m, source),
        ),
        eval_source(m, source).1 matches Err(f) ==> f is ParserError || is_source_failure(f),
{
    law_source_terms(source);
    if let Ok(t) = parse_of(source) {
        law_scope_balance(m, t, ITERATION_CAP as nat);
        law_scope_names(m, t, ITERATION_CAP as nat);
        law_source_progress(m, t, ITERATION_CAP as nat);
    }
}

/// The remainder that has the sign of the dividend differs from the dividend
/// by a multiple of the size of the divisor.
proof fn lemma_trunc_rem_multiple(a: int, b: int) -> (k: int)
    requires
        b != 0,
    ensures
        trunc_rem(a, b) == a + k * b,
{
    let n = if b < 0 {
        -b
    } else {
        b
    };
    let x = if a < 0 {
        -a
    } else {
        a
    };
    vstd::arithmetic::div_mod::lemma_fundamental_div_mod(x, n);
    let c = x / n;
    assert(x == n * c + x % n);
    let k: int = if (a < 0) == (b < 0) {
        -c
    } else {
        c
    };
    assert(k * b == -(n * c) || k * b == n * c) by (nonlinear_arith)
        requires
            n == b || n == -b,
            k == c || k == -c,
    ;
    assert(a >= 0 ==> k * b == -(n * c)) by (nonlinear_arith)
        requires
            (b > 0 && n == b && k == -c) || (b < 0 && n == -b && k == c) || a < 0,
    ;
    assert(a < 0 ==> k * b == n * c) by (nonlinear_arith)
        requires
            (b < 0 && n == -b && k == -c) || (b > 0 && n == b && k == c) || a >= 0,
    ;
    k
}

/// Whether an operator is one of `+`, `-`, `*`, `/` and `%`.
pub open spec fn is_arithmetic(op: BinOp) -> bool {
    op == BinOp::Plus || op == BinOp::Minus || op == BinOp::Times || op == BinOp::Div || op
        == BinOp::Mod
}

/// The term of an arithmetic operator between two integers.
pub open spec fn arith_term(op: BinOp, a: int, b: int) -> Term {
    Term::Bop(op, Box::new(Term::Val(Value::Int(a))), Box::new(Term::Val(Value::Int(b))))
}

/// What evaluation makes of the outcome of checked arithmetic.
pub open spec fn arith_outcome(r: Result<int, Failure>) -> Result<Term, Failure> {
    match r {
        Ok(n) => Ok(Term::Val(Value::Int(n))),
        Err(f) => Err(f),
    }
}

/// An arithmetic operator between two integers evaluates, in one step and on
/// every machine, to what checked arithmetic gives, and leaves the machine
/// as it is.
pub proof fn lemma_eval_arith(m: Machine, op: BinOp, a: int, b: int, limit: nat)
    requires
        is_arithmetic(op),
        limit >= 1,
    ensures
        step_of(m, arith_term(op, a, b)) == (m, arith_outcome(arith(op, a, b))),
        eval_of(m, arith_term(op, a, b), limit) == (m, arith_outcome(arith(op, a, b))),
{
    reveal_with_fuel(run_of, 2);
}

/// The modulus has the sign of the divisor: where the divisor is not zero
/// and no step of the formula fails, `a % b` evaluates to an integer that
/// lies from zero up to the divisor, which it does not reach, and that
/// differs from the dividend by a multiple of the divisor. The factor of
/// that multiple is returned.
pub proof fn law_modulus(m: Machine, a: int, b: int, limit: nat) -> (k: int)
    requires
        in_range(a),
        in_range(b),
        b != 0,
        modulus(a, b) is Ok,
        limit >= 1,
    ensures
        eval_of(m, arith_term(BinOp::Mod, a, b), limit) == (
            m,
            Ok::<Term, Failure>(Term::Val(Value::Int(modulus(a, b)->Ok_0))),
        ),
        b > 0 ==> 0 <= modulus(a, b)->Ok_0 < b,
        b < 0 ==> b < modulus(a, b)->Ok_0 <= 0,
        in_range(modulus(a, b)->Ok_0),
        modulus(a, b)->Ok_0 == a + k * b,
{
    lemma_eval_arith(m, BinOp::Mod, a, b, limit);
    let r = trunc_rem(a, b);
    let k1 = lemma_trunc_rem_multiple(a, b);
    let k2 = lemma_trunc_rem_multiple(r + b, b);
    let q = trunc_rem(r + b, b);
    assert(q == a + (k1 + 1 + k2) * b) by (nonlinear_arith)
        requires
            r == a + k1 * b,
            q == r + b + k2 * b,
    ;
    k1 + 1 + k2
}

/// Checked arithmetic. The sum, the difference and the product of two
/// integers evaluate to themselves if and only if a value can hold them, to
/// an overflow if and only if they lie above the largest integer, and to an
/// underflow if and only if they lie below the smallest: so one more than
/// the largest integer is an overflow, and one less than the smallest an
/// underflow. Division and modulus by zero are underflows, whatever the
/// dividend. No result of checked arithmetic lies outside the integers that
/// a value can hold, and no failure is another than these two.
pub proof fn law_checked_arithmetic(m: Machine, op: BinOp, a: int, b: int, limit: nat)
    requires
        in_range(a),
        in_range(b),
        limit >= 1,
    ensures
        op == BinOp::Plus || op == BinOp::Minus || op == BinOp::Times ==> {
            let exact = if op == BinOp::Plus {
                a + b
            } else if op == BinOp::Minus {
                a - b
            } else {
                a * b
            };
            let outcome = eval_of(m, arith_term(op, a, b), limit);
            &&& outcome.0 == m
            &&& outcome.1 == Ok::<Term, Failure>(Term::Val(Value::Int(exact))) <==> in_range(exact)
            &&& outcome.1 == Err::<Term, Failure>(Failure::IntegerOverflow) <==> exact
                > isize::MAX
            &&& outcome.1 == Err::<Term, Failure>(Failure::IntegerUnderflow) <==> exact
                < isize::MIN
        },
        eval_of(m, arith_term(BinOp::Plus, isize::MAX as int, 1), limit) == (
            m,
            Err::<Term, Failure>(Failure::IntegerOverflow),
        ),
        eval_of(m, arith_term(BinOp::Minus, isize::MIN as int, 1), limit) == (
            m,
            Err::<Term, Failure>(Failure::IntegerUnderflow),
        ),
        eval_of(m, arith_term(BinOp::Div, a, 0), limit) == (
            m,
            Err::<Term, Failure>(Failure::IntegerUnderflow),
        ),
        eval_of(m, arith_term(BinOp::Mod, a, 0), limit) == (
            m,
            Err::<Term, Failure>(Failure::IntegerUnderflow),
        ),
        arith(op, a, b) matches Ok(n) ==> in_range(n),
        arith(op, a, b) matches Err(f) ==> f is IntegerOverflow || f is IntegerUnderflow,
{
    lemma_eval_arith(m, BinOp::Plus, isize::MAX as int, 1, limit);
    lemma_eval_arith(m, BinOp::Minus, isize::MIN as int, 1, limit);
    lemma_eval_arith(m, BinOp::Div, a, 0, limit);
    lemma_eval_arith(m, BinOp::Mod, a, 0, limit);
    if is_arithmetic(op) {
        lemma_eval_arith(m, op, a, b, limit);
    }
    if modulus(a, b) is Ok {
        let k = law_modulus(m, a, b, limit);
    }
}

} // verus!
