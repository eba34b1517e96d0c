//! The interpreter: an environment and the lines printed so far, with the
//! executable reducer.
use crate::expr::{lemma_terms_of, terms_of, BinOp, Dec, Expr, Term, UnOp, Val};
use crate::runtime_error::{Failure, RuntimeError};
use crate::parser::grammar::parse_of;
use crate::parser::parser::parse;
use crate::semantics::{
    apply, arith, binary, bind_params, checked, eval_of, first_non_value, mismatch, run_of,
    step_of, unary, value_of, Machine, ITERATION_CAP, KIND_BOOL, KIND_FUNC, KIND_INT, KIND_VAR,
};
use crate::laws::{is_source_failure, law_source_evaluation};
use crate::names::{declared_at_top, leaves_names};
use crate::scoping::env_scope_free;
use crate::state::{Cell, State};
use vstd::prelude::*;

verus! {

/// The model of what a reduction returns.
pub open spec fn result_view(r: Result<Expr, RuntimeError>) -> Result<Term, Failure> {
    match r {
        Ok(e) => Ok(e@),
        Err(f) => Err(f@),
    }
}

/// The evaluation of a source text on machine `m`.
pub open spec fn eval_source(m: Machine, source: Seq<char>) -> (Machine, Result<Term, Failure>) {
    match parse_of(source) {
        Ok(t) => eval_of(m, t, ITERATION_CAP as nat),
        Err(err) => (m, Err(Failure::ParserError(err))),
    }
}

/// The names that the evaluation of a source text on machine `m` declares at
/// the top level, that is, while no call is under way.
pub open spec fn declared_by_source(m: Machine, source: Seq<char>) -> Set<Seq<char>> {
    match parse_of(source) {
        Ok(t) => declared_at_top(m, t, ITERATION_CAP as nat),
        Err(_) => Set::empty(),
    }
}

/// The models of printed lines, in order.
pub open spec fn lines_of(lines: Seq<String>) -> Seq<Seq<char>> {
    lines.map_values(|l: String| l@)
}

/// An interpreter: an environment, and the lines that evaluation has printed
/// so far, oldest first.
pub struct Interpreter {
    pub state: State,
    pub output: Vec<String>,
}

impl View for Interpreter {
    type V = Machine;

    open spec fn view(&self) -> Machine {
        Machine { env: self.state@, out: lines_of(self.output@) }
    }
}

/// The product of two integers of one sign is not negative, and that of two
/// integers of different signs is not positive.
proof fn lemma_product_sign(a: int, b: int)
    ensures
        (a < 0) == (b < 0) ==> a * b >= 0,
        (a < 0) != (b < 0) ==> a * b <= 0,
{
    assert((a < 0) == (b < 0) ==> a * b >= 0) by (nonlinear_arith);
    assert((a < 0) != (b < 0) ==> a * b <= 0) by (nonlinear_arith);
}

/// The model of a checked result.
pub open spec fn checked_view(r: Result<isize, RuntimeError>) -> Result<int, Failure> {
    match r {
        Ok(n) => Ok(n as int),
        Err(e) => Err(e@),
    }
}

/// The checked sum.
fn checked_sum(a: isize, b: isize) -> (res: Result<isize, RuntimeError>)
    ensures
        checked_view(res) == checked(a + b),
{
    match a.checked_add(b) {
        Some(n) => Ok(n),
        None => if b < 0 {
            Err(RuntimeError::IntegerUnderflow)
        } else {
            Err(RuntimeError::IntegerOverflow)
        },
    }
}

/// The checked difference.
fn checked_difference(a: isize, b: isize) -> (res: Result<isize, RuntimeError>)
    ensures
        checked_view(res) == checked(a - b),
{
    match a.checked_sub(b) {
        Some(n) => Ok(n),
        None => if b < 0 {
            Err(RuntimeError::IntegerOverflow)
        } else {
            Err(RuntimeError::IntegerUnderflow)
        },
    }
}

/// The checked product.
fn checked_product(a: isize, b: isize) -> (res: Result<isize, RuntimeError>)
    ensures
        checked_view(res) == checked(a * b),
{
    proof {
        lemma_product_sign(a as int, b as int);
    }
    match a.checked_mul(b) {
        Some(n) => Ok(n),
        None => if (a < 0) == (b < 0) {
            Err(RuntimeError::IntegerOverflow)
        } else {
            Err(RuntimeError::IntegerUnderflow)
        },
    }
}

/// Checked arithmetic for `+`, `-`, `*`, `/` and `%`: the result where a
/// value can hold it, else the failure that says which way the sum, the
/// difference or the product has left the range; division and modulus fail
/// with an underflow. An operator that is none of the five is taken for `%`.
pub fn checked_arith(op: BinOp, a: isize, b: isize) -> (res: Result<isize, RuntimeError>)
    ensures
        checked_view(res) == arith(op, a as int, b as int),
{
    match op {
        BinOp::Plus => checked_sum(a, b),
        BinOp::Minus => checked_difference(a, b),
        BinOp::Times => checked_product(a, b),
        BinOp::Div => match a.checked_div(b) {
            Some(n) => Ok(n),
            None => Err(RuntimeError::IntegerUnderflow),
        },
        _ => {
            let r = match a.checked_rem(b) {
                Some(r) => r,
                None => { return Err(RuntimeError::IntegerUnderflow); },
            };
            let shifted = match r.checked_add(b) {
                Some(s) => s,
                None => { return Err(RuntimeError::IntegerUnderflow); },
            };
            match shifted.checked_rem(b) {
                Some(n) => Ok(n),
                None => Err(RuntimeError::IntegerUnderflow),
            }
        },
    }
}

/// The failure of a rule that expected a term of kind `kind` and found `v`.
fn mismatch_of(kind: &str, v: Val) -> (res: RuntimeError)
    ensures
        res@ == mismatch(kind@, v@),
{
    RuntimeError::InvalidTypeConversion(kind.to_owned(), Expr::Val(v))
}

/// Applies a unary operator to a value.
pub fn apply_unary(op: UnOp, v: Val) -> (res: Result<Expr, RuntimeError>)
    ensures
        result_view(res) == unary(op, v@),
{
    match op {
        UnOp::Not => match v {
            Val::Bool(b) => Ok(Expr::Val(Val::Bool(!b))),
            other => Err(mismatch_of(KIND_BOOL, other)),
        },
        UnOp::Neg => match v {
            Val::Int(n) => if n == isize::MIN {
                Err(RuntimeError::IntegerOverflow)
            } else {
                Ok(Expr::Val(Val::Int(-n)))
            },
            other => Err(mismatch_of(KIND_INT, other)),
        },
    }
}

/// Applies a binary operator to two values.
pub fn apply_binary(op: BinOp, a: Val, b: Val) -> (res: Result<Expr, RuntimeError>)
    ensures
        result_view(res) == binary(op, a@, b@),
{
    match op {
        BinOp::And | BinOp::Or => match (a, b) {
            (Val::Bool(x), Val::Bool(y)) => Ok(
                Expr::Val(
                    Val::Bool(
                        if op == BinOp::And {
                            x && y
                        } else {
                            x || y
                        },
                    ),
                ),
            ),
            (Val::Bool(_), other) => Err(mismatch_of(KIND_BOOL, other)),
            (other, _) => Err(mismatch_of(KIND_BOOL, other)),
        },
        BinOp::Eq => Ok(Expr::Val(Val::Bool(a.eq(&b)))),
        BinOp::Ne => Ok(Expr::Val(Val::Bool(!a.eq(&b)))),
        BinOp::Lt | BinOp::Gt | BinOp::Leq | BinOp::Geq => match (a, b) {
            (Val::Int(x), Val::Int(y)) => Ok(
                Expr::Val(
                    Val::Bool(
                        match op {
                            BinOp::Lt => x < y,
                            BinOp::Gt => x > y,
                            BinOp::Leq => x <= y,
                            _ => x >= y,
                        },
                    ),
                ),
            ),
            (Val::Int(_), other) => Err(mismatch_of(KIND_INT, other)),
            (other, _) => Err(mismatch_of(KIND_INT, other)),
        },
        BinOp::Plus | BinOp::Minus | BinOp::Times | BinOp::Div | BinOp::Mod => match (a, b) {
            (Val::Int(x), Val::Int(y)) => match checked_arith(op, x, y) {
                Ok(n) => Ok(Expr::Val(Val::Int(n))),
                Err(e) => Err(e),
            },
            (Val::Int(_), other) => Err(mismatch_of(KIND_INT, other)),
            (other, _) => Err(mismatch_of(KIND_INT, other)),
        },
        BinOp::Sequence => Ok(Expr::Val(b)),
        BinOp::Assign => Err(mismatch_of(KIND_VAR, a)),
    }
}

/// The index of the first term that is not a value; the length where all are.
fn first_non_value_index(args: &Vec<Expr>) -> (res: usize)
    ensures
        res == first_non_value(terms_of(args@), 0),
        res <= args.len(),
{
    proof {
        lemma_terms_of(args@);
    }
    let mut k: usize = 0;
    while k < args.len()
        invariant
            k <= args.len(),
            terms_of(args@).len() == args.len(),
            forall|j: int| 0 <= j < args.len() ==> #[trigger] terms_of(args@)[j] == args[j]@,
            first_non_value(terms_of(args@), 0) == first_non_value(terms_of(args@), k as int),
        decreases args.len() - k,
    {
        if !args[k].is_value() {
            return k;
        }
        k = k + 1;
    }
    k
}

impl Interpreter {
    /// An interpreter with the initial environment and nothing printed.
    pub fn new() -> (res: Interpreter)
        ensures
            res@ == (Machine {
                env: seq![Map::<Seq<char>, Cell>::empty()],
                out: Seq::<Seq<char>>::empty(),
            }),
            env_scope_free(res@.env),
    {
        let res = Interpreter { state: State::new(), output: Vec::new() };
        assert(res@.out =~= Seq::<Seq<char>>::empty());
        res
    }

    /// Hands out the lines printed so far, and forgets them.
    pub fn take_output(&mut self) -> (res: Vec<String>)
        ensures
            lines_of(res@) == old(self)@.out,
            final(self)@ == (Machine { env: old(self)@.env, out: Seq::<Seq<char>>::empty() }),
    {
        let mut lines: Vec<String> = Vec::new();
        std::mem::swap(&mut self.output, &mut lines);
        assert(lines_of(self.output@) =~= Seq::<Seq<char>>::empty());
        lines
    }

    /// Applies a function value to argument values.
    fn apply_function(
        &mut self,
        name: Option<Box<Expr>>,
        body: Box<Expr>,
        params: Vec<Expr>,
        args: Vec<Expr>,
    ) -> (res: Result<Expr, RuntimeError>)
        ensures
            (final(self)@, result_view(res)) == apply(
                old(self)@,
                match name {
                    Some(n) => Some(Box::new((*n)@)),
                    None => None,
                },
                (*body)@,
                terms_of(params@),
                terms_of(args@),
            ),
    {
        proof {
            lemma_terms_of(params@);
            lemma_terms_of(args@);
        }
        let ghost ps = terms_of(params@);
        let ghost xs = terms_of(args@);
        self.state.begin_scope();
        let ghost fresh = self.state@;
        let mut k: usize = 0;
        while k < params.len() && k < args.len()
            invariant
                k <= params.len(),
                k <= args.len(),
                ps == terms_of(params@),
                xs == terms_of(args@),
                ps.len() == params.len(),
                xs.len() == args.len(),
                forall|j: int| 0 <= j < params.len() ==> #[trigger] ps[j] == params[j]@,
                forall|j: int| 0 <= j < args.len() ==> #[trigger] xs[j] == args[j]@,
                self.output == old(self).output,
                fresh == old(self).state@.push(Map::<Seq<char>, Cell>::empty()),
                bind_params(fresh, ps, xs, 0) == bind_params(self.state@, ps, xs, k as int),
            decreases params.len() - k,
        {
            match &params[k] {
                Expr::Var(p) => {
                    let value = match &args[k] {
                        Expr::Val(v) => v.clone(),
                        _ => Val::Undefined,
                    };
                    assert(value@ == value_of(xs[k as int]));
                    self.state.alloc_var(p.clone(), value);
                },
                other => {
                    assert(other@ == ps[k as int]);
                    assert(!(other@ is Var));
                    return Err(
                        RuntimeError::InvalidTypeConversion(KIND_VAR.to_owned(), other.clone()),
                    );
                },
            }
            k = k + 1;
        }
        match &name {
            Some(n) => match &**n {
                Expr::Var(s) => {
                    let own_name = s.clone();
                    let copy = Val::Func(
                        Some(Box::new(Expr::Var(s.clone()))),
                        Box::new((&*body).clone()),
                        params,
                    );
                    self.state.alloc_var(own_name, copy);
                },
                _ => {},
            },
            None => {},
        }
        Ok(Expr::Scope(body))
    }

    /// One reduction step. The leftmost reducible sub-term is reduced; a value
    /// cannot be stepped.
    pub fn step(&mut self, e: Expr) -> (res: Result<Expr, RuntimeError>)
        ensures
            (final(self)@, result_view(res)) == step_of(old(self)@, e@),
        decreases e, 1nat,
    {
        match e {
            Expr::Val(v) => Err(RuntimeError::SteppingOnValue(Expr::Val(v))),
            Expr::Var(x) => self.step_var(x),
            Expr::Uop(op, a) => self.step_uop(op, *a, Ghost(e)),
            Expr::Bop(op, a, b) => self.step_bop(op, *a, b, Ghost(e)),
            Expr::Ternary(c, yes, no) => self.step_ternary(*c, yes, no, Ghost(e)),
            Expr::While(c, c0, b, b0, after) => self.step_while(*c, c0, *b, b0, after, Ghost(e)),
            Expr::Decl(kind, x, init, body) => self.step_decl(kind, x, *init, body, Ghost(e)),
            Expr::FnCall(callee, args) => self.step_call(*callee, args, Ghost(e)),
            Expr::Scope(a) => self.step_scope(*a, Ghost(e)),
            Expr::Print(a) => self.step_print(*a, Ghost(e)),
        }
    }

/// Evaluates a term within `limit` steps: steps are taken until the term
    /// is a value, which is returned, or a step fails, or `limit` steps have
    /// been taken and the term still is no value.
    pub fn run_within(&mut self, e: Expr, limit: usize) -> (res: Result<Expr, RuntimeError>)
        requires
            limit < usize::MAX,
        ensures
            (final(self)@, result_view(res)) == eval_of(old(self)@, e@, limit as nat),
    {
        let mut term = e;
        let mut left = limit;
        loop
            invariant
                limit < usize::MAX,
                run_of(self@, term@, left as nat, limit as nat) == eval_of(
                    old(self)@,
                    e@,
                    limit as nat,
                ),
            decreases left,
        {
            if term.is_value() {
                return Ok(term);
            }
            if left == 0 {
                return Err(RuntimeError::TooManyIterations(limit + 1));
            }
            match self.step(term) {
                Ok(next) => {
                    term = next;
                    left = left - 1;
                },
                Err(f) => {
                    return Err(f);
                },
            }
        }
    }

    /// Evaluates a term: `run_within` the iteration cap.
    pub fn run(&mut self, e: Expr) -> (res: Result<Expr, RuntimeError>)
        ensures
            (final(self)@, result_view(res)) == eval_of(old(self)@, e@, ITERATION_CAP as nat),
    {
        self.run_within(e, ITERATION_CAP)
    }

    /// Evaluates a source text: the text is parsed, and the term that it
    /// denotes is evaluated. A text that is not accepted leaves the
    /// interpreter as it is. On an environment whose values are scope-free,
    /// as they are where only source texts have been evaluated, a successful
    /// evaluation leaves as many frames as it found, each with the names it
    /// bound and the innermost with those that the text has declared at the
    /// top level besides; and a failure is one of the parser or one of the
    /// failures of scope-free terms.
    pub fn eval(&mut self, input: &str) -> (res: Result<Expr, RuntimeError>)
        ensures
            (final(self)@, result_view(res)) == eval_source(old(self)@, input@),
            env_scope_free(old(self)@.env) ==> env_scope_free(final(self)@.env) && match res {
                Ok(_) => final(self)@.env.len() == old(self)@.env.len() && leaves_names(
                    old(self)@.env,
                    old(self)@.env.len() as int,
                    final(self)@.env,
                    declared_by_source(old(self)@, input@),
                ),
                Err(e) => e@ is ParserError || is_source_failure(e@),
            },
    {
        proof {
            self.state.lemma_has_global_frame();
            if env_scope_free(self@.env) {
                law_source_evaluation(self@, input@);
            }
        }
        match parse(input) {
            Ok(e) => self.run(e),
            Err(err) => Err(RuntimeError::from(err)),
        }
    }

    /// Steps a name: it is looked up.
    fn step_var(&mut self, x: String) -> (res: Result<Expr, RuntimeError>)
        ensures
            (final(self)@, result_view(res)) == step_of(old(self)@, Term::Var(x@)),
    {
        match self.state.get(x) {
            Ok(v) => Ok(Expr::Val(v)),
            Err(f) => Err(f),
        }
    }

    /// Steps a unary operator and its operand.
    fn step_uop(&mut self, op: UnOp, a: Expr, Ghost(whole): Ghost<Expr>) -> (res: Result<Expr, RuntimeError>)
        requires
            whole == Expr::Uop(op, Box::new(a)),
        ensures
            (final(self)@, result_view(res)) == step_of(old(self)@, Term::Uop(op, Box::new(a@))),
        decreases whole, 0nat,
    {
        assert(whole->Uop_1 == Box::new(a));
        match a {
            Expr::Val(v) => apply_unary(op, v),
            other => match self.step(other) {
                Ok(a1) => Ok(Expr::Uop(op, Box::new(a1))),
                Err(f) => Err(f),
            },
        }
    }

    /// Steps a binary operator and its operands, the left one first.
    fn step_bop(&mut self, op: BinOp, a: Expr, b: Box<Expr>, Ghost(whole): Ghost<Expr>) -> (res: Result<
        Expr,
        RuntimeError,
    >)
        requires
            whole == Expr::Bop(op, Box::new(a), b),
        ensures
            (final(self)@, result_view(res)) == step_of(
                old(self)@,
                Term::Bop(op, Box::new(a@), Box::new((*b)@)),
            ),
        decreases whole, 0nat,
    {
        assert(whole->Bop_1 == Box::new(a));
        assert(whole->Bop_2 == b);
        match a {
            Expr::Val(va) => {
                if op == BinOp::Sequence {
                    Ok(*b)
                } else {
                    match *b {
                        Expr::Val(vb) => apply_binary(op, va, vb),
                        other => match self.step(other) {
                            Ok(b1) => Ok(Expr::Bop(op, Box::new(Expr::Val(va)), Box::new(b1))),
                            Err(f) => Err(f),
                        },
                    }
                }
            },
            Expr::Var(x) => {
                if op == BinOp::Assign {
                    match *b {
                        Expr::Val(vb) => {
                            let copy = vb.clone();
                            match self.state.assign(x, copy) {
                                Ok(_) => Ok(Expr::Val(vb)),
                                Err(f) => Err(f),
                            }
                        },
                        other => match self.step(other) {
                            Ok(b1) => Ok(Expr::Bop(op, Box::new(Expr::Var(x)), Box::new(b1))),
                            Err(f) => Err(f),
                        },
                    }
                } else {
                    match self.step_var(x) {
                        Ok(a1) => Ok(Expr::Bop(op, Box::new(a1), b)),
                        Err(f) => Err(f),
                    }
                }
            },
            other => match self.step(other) {
                Ok(a1) => Ok(Expr::Bop(op, Box::new(a1), b)),
                Err(f) => Err(f),
            },
        }
    }

    /// Steps a conditional: its condition, or the choice.
    fn step_ternary(
        &mut self,
        c: Expr,
        yes: Box<Expr>,
        no: Box<Expr>,
        Ghost(whole): Ghost<Expr>,
    ) -> (res: Result<Expr, RuntimeError>)
        requires
            whole == Expr::Ternary(Box::new(c), yes, no),
        ensures
            (final(self)@, result_view(res)) == step_of(
                old(self)@,
                Term::Ternary(Box::new(c@), Box::new((*yes)@), Box::new((*no)@)),
            ),
        decreases whole, 0nat,
    {
        assert(whole->Ternary_0 == Box::new(c));
        match c {
            Expr::Val(Val::Bool(flag)) => Ok(
                if flag {
                    *yes
                } else {
                    *no
                },
            ),
            Expr::Val(v) => Err(mismatch_of(KIND_BOOL, v)),
            other => match self.step(other) {
                Ok(c1) => Ok(Expr::Ternary(Box::new(c1), yes, no)),
                Err(f) => Err(f),
            },
        }
    }

    /// Steps a loop: its body, then its condition, then the restart or the
    /// exit.
    fn step_while(
        &mut self,
        c: Expr,
        c0: Box<Expr>,
        b: Expr,
        b0: Box<Expr>,
        after: Box<Expr>,
        Ghost(whole): Ghost<Expr>,
    ) -> (res: Result<Expr, RuntimeError>)
        requires
            whole == Expr::While(Box::new(c), c0, Box::new(b), b0, after),
        ensures
            (final(self)@, result_view(res)) == step_of(
                old(self)@,
                Term::While(
                    Box::new(c@),
                    Box::new((*c0)@),
                    Box::new(b@),
                    Box::new((*b0)@),
                    Box::new((*after)@),
                ),
            ),
        decreases whole, 0nat,
    {
        assert(whole->While_0 == Box::new(c));
        assert(whole->While_2 == Box::new(b));
        match c {
            Expr::Val(Val::Bool(flag)) => {
                if flag {
                    let c_again = (&*c0).clone();
                    let b_again = (&*b0).clone();
                    Ok(Expr::While(Box::new(c_again), c0, Box::new(b_again), b0, after))
                } else {
                    Ok(*after)
                }
            },
            cond => match b {
                Expr::Val(vb) => match cond {
                    Expr::Val(vc) => Err(mismatch_of(KIND_BOOL, vc)),
                    other => match self.step(other) {
                        Ok(c1) => Ok(
                            Expr::While(Box::new(c1), c0, Box::new(Expr::Val(vb)), b0, after),
                        ),
                        Err(f) => Err(f),
                    },
                },
                body => match self.step(body) {
                    Ok(b1) => Ok(Expr::While(Box::new(cond), c0, Box::new(b1), b0, after)),
                    Err(f) => Err(f),
                },
            },
        }
    }

    /// Steps a declaration: the term for its value, or the binding.
    fn step_decl(
        &mut self,
        kind: Dec,
        x: Box<Expr>,
        init: Expr,
        body: Box<Expr>,
        Ghost(whole): Ghost<Expr>,
    ) -> (res: Result<Expr, RuntimeError>)
        requires
            whole == Expr::Decl(kind, x, Box::new(init), body),
        ensures
            (final(self)@, result_view(res)) == step_of(
                old(self)@,
                Term::Decl(kind, Box::new((*x)@), Box::new(init@), Box::new((*body)@)),
            ),
        decreases whole, 0nat,
    {
        assert(whole->Decl_2 == Box::new(init));
        match init {
            Expr::Val(v) => match *x {
                Expr::Var(name) => {
                    match kind {
                        Dec::DVar => self.state.alloc_var(name, v),
                        Dec::DConst => self.state.alloc_const(name, v),
                    }
                    Ok(*body)
                },
                other => Err(RuntimeError::InvalidTypeConversion(KIND_VAR.to_owned(), other)),
            },
            other => match self.step(other) {
                Ok(init1) => Ok(Expr::Decl(kind, x, Box::new(init1), body)),
                Err(f) => Err(f),
            },
        }
    }

    /// Steps a call: the callee, then the arguments from the left, then the
    /// application.
    fn step_call(&mut self, callee: Expr, args: Vec<Expr>, Ghost(whole): Ghost<Expr>) -> (res: Result<
        Expr,
        RuntimeError,
    >)
        requires
            whole == Expr::FnCall(Box::new(callee), args),
        ensures
            (final(self)@, result_view(res)) == step_of(
                old(self)@,
                Term::FnCall(Box::new(callee@), terms_of(args@)),
            ),
        decreases whole, 0nat,
    {
        assert(whole->FnCall_0 == Box::new(callee));
        assert(whole->FnCall_1 == args);
        match callee {
            Expr::Val(Val::Func(name, body, params)) => {
                let mut args = args;
                let i = first_non_value_index(&args);
                let ghost before = terms_of(args@);
                proof {
                    lemma_terms_of(args@);
                }
                if i < args.len() {
                    let arg = args.remove(i);
                    match self.step(arg) {
                        Ok(arg1) => {
                            args.insert(i, arg1);
                            proof {
                                lemma_terms_of(args@);
                                assert(terms_of(args@) =~= before.update(i as int, arg1@));
                            }
                            Ok(
                                Expr::FnCall(
                                    Box::new(Expr::Val(Val::Func(name, body, params))),
                                    args,
                                ),
                            )
                        },
                        Err(f) => Err(f),
                    }
                } else {
                    self.apply_function(name, body, params, args)
                }
            },
            Expr::Val(v) => Err(mismatch_of(KIND_FUNC, v)),
            other => match self.step(other) {
                Ok(callee1) => Ok(Expr::FnCall(Box::new(callee1), args)),
                Err(f) => Err(f),
            },
        }
    }

    /// Steps the body of a call, or pops its frame.
    fn step_scope(&mut self, a: Expr, Ghost(whole): Ghost<Expr>) -> (res: Result<Expr, RuntimeError>)
        requires
            whole == Expr::Scope(Box::new(a)),
        ensures
            (final(self)@, result_view(res)) == step_of(old(self)@, Term::Scope(Box::new(a@))),
        decreases whole, 0nat,
    {
        assert(whole->Scope_0 == Box::new(a));
        match a {
            Expr::Val(v) => match self.state.end_scope() {
                Ok(_) => Ok(Expr::Val(v)),
                Err(f) => Err(f),
            },
            other => match self.step(other) {
                Ok(a1) => Ok(Expr::Scope(Box::new(a1))),
                Err(f) => Err(f),
            },
        }
    }

    /// Steps the term to print, or prints its value.
    fn step_print(&mut self, a: Expr, Ghost(whole): Ghost<Expr>) -> (res: Result<Expr, RuntimeError>)
        requires
            whole == Expr::Print(Box::new(a)),
        ensures
            (final(self)@, result_view(res)) == step_of(old(self)@, Term::Print(Box::new(a@))),
        decreases whole, 0nat,
    {
        assert(whole->Print_0 == Box::new(a));
        match a {
            Expr::Val(v) => {
                let line = v.to_string();
                self.output.push(line);
                assert(lines_of(self.output@) =~= lines_of(old(self).output@).push(line@));
                Ok(Expr::Val(Val::Undefined))
            },
            other => match self.step(other) {
                Ok(a1) => Ok(Expr::Print(Box::new(a1))),
                Err(f) => Err(f),
            },
        }
    }
}

} // verus!
