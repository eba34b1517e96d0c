//! The mathematical model of reduction: what one step makes of a term on a
//! machine, and what evaluation within a limit of steps comes to.
use crate::expr::{value_text, BinOp, Dec, Term, UnOp, Value};
use crate::runtime_error::Failure;
use crate::state::{env_alloc, env_assign, env_get, Cell, Env, GLOBAL_FRAME_POPPED};
use vstd::prelude::*;

verus! {

/// The most steps that one evaluation may take.
pub const ITERATION_CAP: usize = 1000000000;

/// The name of the kind of term that a rule on booleans expects.
pub const KIND_BOOL: &'static str = "bool";

/// The name of the kind of term that a rule on integers expects.
pub const KIND_INT: &'static str = "int";

/// The name of the kind of term that a rule on names expects.
pub const KIND_VAR: &'static str = "var";

/// The name of the kind of term that a call expects as its callee.
pub const KIND_FUNC: &'static str = "func";

/// The mathematical model of an interpreter: its environment, and the lines
/// it has printed, oldest first.
pub struct Machine {
    pub env: Env,
    pub out: Seq<Seq<char>>,
}

/// What one reduction yields: the machine after it, and the new term or the
/// failure.
pub type Outcome = (Machine, Result<Term, Failure>);

/// Whether an integer can be held by a value.
pub open spec fn in_range(n: int) -> bool {
    isize::MIN <= n <= isize::MAX
}

/// The absolute value.
pub open spec fn magnitude(n: int) -> int {
    if n < 0 {
        -n
    } else {
        n
    }
}

/// The quotient rounded toward zero.
pub open spec fn trunc_div(a: int, b: int) -> int
    recommends
        b != 0,
{
    if (a < 0) == (b < 0) {
        magnitude(a) / magnitude(b)
    } else {
        -(magnitude(a) / magnitude(b))
    }
}

/// The remainder of the division rounded toward zero: it has the sign of the
/// dividend.
pub open spec fn trunc_rem(a: int, b: int) -> int
    recommends
        b != 0,
{
    if a < 0 {
        -(magnitude(a) % magnitude(b))
    } else {
        a % magnitude(b)
    }
}

/// The modulus `((a rem b) + b) rem b`, which has the sign of the divisor. It
/// fails where the divisor is zero or a step of the formula cannot be held.
pub open spec fn modulus(a: int, b: int) -> Result<int, Failure> {
    if b == 0 || (a == isize::MIN && b == -1) {
        Err(Failure::IntegerUnderflow)
    } else if !in_range(trunc_rem(a, b) + b) {
        Err(Failure::IntegerUnderflow)
    } else {
        Ok(trunc_rem(trunc_rem(a, b) + b, b))
    }
}

/// A result of `+`, `-` or `*`, where a value can hold it; else the failure
/// that says which way it has left the range: an overflow above the largest
/// integer, an underflow below the smallest.
pub open spec fn checked(n: int) -> Result<int, Failure> {
    if n > isize::MAX {
        Err(Failure::IntegerOverflow)
    } else if n < isize::MIN {
        Err(Failure::IntegerUnderflow)
    } else {
        Ok(n)
    }
}

/// Checked arithmetic on two integers that values hold. The sum, the
/// difference and the product are results where a value can hold them, and
/// overflows above and underflows below the range of values. The quotient is
/// rounded toward zero; division by zero is an underflow, and so is the one
/// quotient that no value can hold, that of the smallest integer by -1. The
/// last is the modulus. An operator that is none of the five is taken for
/// `%`.
pub open spec fn arith(op: BinOp, a: int, b: int) -> Result<int, Failure> {
    match op {
        BinOp::Plus => checked(a + b),
        BinOp::Minus => checked(a - b),
        BinOp::Times => checked(a * b),
        BinOp::Div => if b == 0 || !in_range(trunc_div(a, b)) {
            Err(Failure::IntegerUnderflow)
        } else {
            Ok(trunc_div(a, b))
        },
        _ => modulus(a, b),
    }
}

/// An integer comparison.
pub open spec fn compare(op: BinOp, a: int, b: int) -> bool {
    match op {
        BinOp::Lt => a < b,
        BinOp::Gt => a > b,
        BinOp::Leq => a <= b,
        _ => a >= b,
    }
}

/// The failure of a rule that expected a term of kind `kind` and found `v`.
pub open spec fn mismatch(kind: Seq<char>, v: Value) -> Failure {
    Failure::InvalidTypeConversion(kind, Term::Val(v))
}

/// A unary operator applied to a value.
pub open spec fn unary(op: UnOp, v: Value) -> Result<Term, Failure> {
    match op {
        UnOp::Not => match v {
            Value::Bool(b) => Ok(Term::Val(Value::Bool(!b))),
            _ => Err(mismatch(KIND_BOOL@, v)),
        },
        UnOp::Neg => match v {
            Value::Int(n) => if n == isize::MIN {
                Err(Failure::IntegerOverflow)
            } else {
                Ok(Term::Val(Value::Int(-n)))
            },
            _ => Err(mismatch(KIND_INT@, v)),
        },
    }
}

/// A binary operator applied to two values. Of two operands of the wrong
/// kind the left one is reported.
pub open spec fn binary(op: BinOp, a: Value, b: Value) -> Result<Term, Failure> {
    match op {
        BinOp::And | BinOp::Or => match (a, b) {
            (Value::Bool(x), Value::Bool(y)) => Ok(
                Term::Val(
                    Value::Bool(
                        if op == BinOp::And {
                            x && y
                        } else {
                            x || y
                        },
                    ),
                ),
            ),
            (Value::Bool(_), _) => Err(mismatch(KIND_BOOL@, b)),
            _ => Err(mismatch(KIND_BOOL@, a)),
        },
        BinOp::Eq => Ok(Term::Val(Value::Bool(a == b))),
        BinOp::Ne => Ok(Term::Val(Value::Bool(a != b))),
        BinOp::Lt | BinOp::Gt | BinOp::Leq | BinOp::Geq => match (a, b) {
            (Value::Int(x), Value::Int(y)) => Ok(Term::Val(Value::Bool(compare(op, x, y)))),
            (Value::Int(_), _) => Err(mismatch(KIND_INT@, b)),
            _ => Err(mismatch(KIND_INT@, a)),
        },
        BinOp::Plus | BinOp::Minus | BinOp::Times | BinOp::Div | BinOp::Mod => match (a, b) {
            (Value::Int(x), Value::Int(y)) => match arith(op, x, y) {
                Ok(n) => Ok(Term::Val(Value::Int(n))),
                Err(f) => Err(f),
            },
            (Value::Int(_), _) => Err(mismatch(KIND_INT@, b)),
            _ => Err(mismatch(KIND_INT@, a)),
        },
        BinOp::Sequence => Ok(Term::Val(b)),
        BinOp::Assign => Err(mismatch(KIND_VAR@, a)),
    }
}

/// The value that a term holds; of a term that is no value, `Undefined`.
pub open spec fn value_of(t: Term) -> Value {
    match t {
        Term::Val(v) => v,
        _ => Value::Undefined,
    }
}

/// The index of the first term, from index `from` on, that is not a value;
/// the length of the list where all are.
pub open spec fn first_non_value(args: Seq<Term>, from: int) -> int
    decreases args.len() - from,
{
    if from < 0 || from >= args.len() {
        args.len() as int
    } else if !(args[from] is Val) {
        from
    } else {
        first_non_value(args, from + 1)
    }
}

/// Binds the parameters from index `from` on to the arguments, pairwise and as
/// far as both lists go, in the innermost frame. A parameter that is no
/// variable ends the binding with a failure; the frame keeps what was bound.
pub open spec fn bind_params(env: Env, params: Seq<Term>, args: Seq<Term>, from: int) -> (
    Env,
    Option<Failure>,
)
    decreases params.len() - from,
{
    if from < 0 || from >= params.len() || from >= args.len() {
        (env, None)
    } else {
        match params[from] {
            Term::Var(p) => bind_params(
                env_alloc(env, p, value_of(args[from]), true),
                params,
                args,
                from + 1,
            ),
            _ => (env, Some(Failure::InvalidTypeConversion(KIND_VAR@, params[from]))),
        }
    }
}

/// The application of a function value to argument values: a fresh frame
/// binds the parameters, then the function's own name where it has one, and
/// the body is left to run inside a scope marker.
pub open spec fn apply(
    m: Machine,
    name: Option<Box<Term>>,
    body: Term,
    params: Seq<Term>,
    args: Seq<Term>,
) -> Outcome {
    let fresh = m.env.push(Map::<Seq<char>, Cell>::empty());
    let (bound, failure) = bind_params(fresh, params, args, 0);
    match failure {
        Some(f) => (Machine { env: bound, out: m.out }, Err(f)),
        None => {
            let env = match name {
                Some(n) => match *n {
                    Term::Var(s) => env_alloc(
                        bound,
                        s,
                        Value::Func(name, Box::new(body), params),
                        true,
                    ),
                    _ => bound,
                },
                None => bound,
            };
            (Machine { env, out: m.out }, Ok(Term::Scope(Box::new(body))))
        },
    }
}

/// One reduction step of `t` on machine `m`. The leftmost reducible sub-term
/// is reduced; a term with a reducible sub-term is rebuilt around the result.
pub open spec fn step_of(m: Machine, t: Term) -> Outcome
    decreases t,
{
    match t {
        Term::Val(_) => (m, Err(Failure::SteppingOnValue(t))),
        Term::Var(x) => match env_get(m.env, x) {
            Some(v) => (m, Ok(Term::Val(v))),
            None => (m, Err(Failure::VariableNotFound(x))),
        },
        Term::Uop(op, a) => match *a {
            Term::Val(v) => (m, unary(op, v)),
            _ => {
                let (m1, r) = step_of(m, *a);
                match r {
                    Ok(a1) => (m1, Ok(Term::Uop(op, Box::new(a1)))),
                    Err(f) => (m1, Err(f)),
                }
            },
        },
        Term::Bop(op, a, b) => {
            if op == BinOp::Sequence && *a is Val {
                (m, Ok(*b))
            } else if op == BinOp::Assign && *a is Var && *b is Val {
                match env_assign(m.env, a->Var_0, b->Val_0) {
                    Ok(env) => (Machine { env, out: m.out }, Ok(*b)),
                    Err(f) => (m, Err(f)),
                }
            } else if *a is Val && *b is Val {
                (m, binary(op, a->Val_0, b->Val_0))
            } else if *a is Val || (op == BinOp::Assign && *a is Var) {
                let (m1, r) = step_of(m, *b);
                match r {
                    Ok(b1) => (m1, Ok(Term::Bop(op, a, Box::new(b1)))),
                    Err(f) => (m1, Err(f)),
                }
            } else {
                let (m1, r) = step_of(m, *a);
                match r {
                    Ok(a1) => (m1, Ok(Term::Bop(op, Box::new(a1), b))),
                    Err(f) => (m1, Err(f)),
                }
            }
        },
        Term::Ternary(c, yes, no) => match *c {
            Term::Val(Value::Bool(flag)) => (
                m,
                Ok(
                    if flag {
                        *yes
                    } else {
                        *no
                    },
                ),
            ),
            Term::Val(v) => (m, Err(mismatch(KIND_BOOL@, v))),
            _ => {
                let (m1, r) = step_of(m, *c);
                match r {
                    Ok(c1) => (m1, Ok(Term::Ternary(Box::new(c1), yes, no))),
                    Err(f) => (m1, Err(f)),
                }
            },
        },
        Term::While(c, c0, b, b0, after) => {
            if *c == Term::Val(Value::Bool(true)) {
                (m, Ok(Term::While(c0, c0, b0, b0, after)))
            } else if *c == Term::Val(Value::Bool(false)) {
                (m, Ok(*after))
            } else if *b is Val {
                if *c is Val {
                    (m, Err(mismatch(KIND_BOOL@, c->Val_0)))
                } else {
                    let (m1, r) = step_of(m, *c);
                    match r {
                        Ok(c1) => (m1, Ok(Term::While(Box::new(c1), c0, b, b0, after))),
                        Err(f) => (m1, Err(f)),
                    }
                }
            } else {
                let (m1, r) = step_of(m, *b);
                match r {
                    Ok(b1) => (m1, Ok(Term::While(c, c0, Box::new(b1), b0, after))),
                    Err(f) => (m1, Err(f)),
                }
            }
        },
        Term::Decl(kind, x, init, body) => match *init {
            Term::Val(v) => match *x {
                Term::Var(name) => (
                    Machine { env: env_alloc(m.env, name, v, kind == Dec::DVar), out: m.out },
                    Ok(*body),
                ),
                _ => (m, Err(Failure::InvalidTypeConversion(KIND_VAR@, *x))),
            },
            _ => {
                let (m1, r) = step_of(m, *init);
                match r {
                    Ok(init1) => (m1, Ok(Term::Decl(kind, x, Box::new(init1), body))),
                    Err(f) => (m1, Err(f)),
                }
            },
        },
        Term::FnCall(callee, args) => match *callee {
            Term::Val(Value::Func(name, body, params)) => {
                let i = first_non_value(args, 0);
                if 0 <= i < args.len() {
                    let (m1, r) = step_of(m, args[i]);
                    match r {
                        Ok(arg1) => (m1, Ok(Term::FnCall(callee, args.update(i, arg1)))),
                        Err(f) => (m1, Err(f)),
                    }
                } else {
                    apply(m, name, *body, params, args)
                }
            },
            Term::Val(v) => (m, Err(mismatch(KIND_FUNC@, v))),
            _ => {
                let (m1, r) = step_of(m, *callee);
                match r {
                    Ok(callee1) => (m1, Ok(Term::FnCall(Box::new(callee1), args))),
                    Err(f) => (m1, Err(f)),
                }
            },
        },
        Term::Scope(a) => match *a {
            Term::Val(v) => if m.env.len() > 1 {
                (Machine { env: m.env.drop_last(), out: m.out }, Ok(*a))
            } else {
                (m, Err(Failure::InvalidMemoryState(GLOBAL_FRAME_POPPED@)))
            },
            _ => {
                let (m1, r) = step_of(m, *a);
                match r {
                    Ok(a1) => (m1, Ok(Term::Scope(Box::new(a1)))),
                    Err(f) => (m1, Err(f)),
                }
            },
        },
        Term::Print(a) => match *a {
            Term::Val(v) => (
                Machine { env: m.env, out: m.out.push(value_text(v)) },
                Ok(Term::Val(Value::Undefined)),
            ),
            _ => {
                let (m1, r) = step_of(m, *a);
                match r {
                    Ok(a1) => (m1, Ok(Term::Print(Box::new(a1)))),
                    Err(f) => (m1, Err(f)),
                }
            },
        },
    }
}

/// Evaluation with `left` steps still allowed out of `limit`: steps are taken
/// until the term is a value, a step fails, or no step is left while the
/// term still is no value.
pub open spec fn run_of(m: Machine, t: Term, left: nat, limit: nat) -> Outcome
    decreases left,
{
    if t is Val {
        (m, Ok(t))
    } else if left == 0 {
        (m, Err(Failure::TooManyIterations(limit + 1)))
    } else {
        let (m1, r) = step_of(m, t);
        match r {
            Ok(t1) => run_of(m1, t1, (left - 1) as nat, limit),
            Err(f) => (m1, Err(f)),
        }
    }
}

/// Evaluation of `t` on machine `m` within `limit` steps.
pub open spec fn eval_of(m: Machine, t: Term, limit: nat) -> Outcome {
    run_of(m, t, limit, limit)
}

} // verus!
