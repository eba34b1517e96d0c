//! Which names the frames of the environment bind, and how reduction adds
//! to them: a declaration binds its name in the innermost frame, a call
//! binds in its own frame, and nothing else binds a name.
use crate::expr::{BinOp, Dec, Term, Value};
use crate::scoping::{env_scope_free, lemma_step_scoped, pending, well_scoped};
use crate::semantics::{apply, bind_params, first_non_value, run_of, step_of, value_of, Machine};
use crate::state::{env_alloc, env_assign, env_find, lemma_env_find, Cell, Env};
use vstd::prelude::*;

verus! {

/// The name that the next step on `t` declares, as a set of one name: the
/// name of the declaration that the step carries out, which it binds in the
/// innermost frame. The set is empty where the step is no declaration.
pub open spec fn declared_by_step(t: Term) -> Set<Seq<char>>
    decreases t,
{
    match t {
        Term::Val(_) => Set::empty(),
        Term::Var(_) => Set::empty(),
        Term::Uop(_, a) => if *a is Val {
            Set::empty()
        } else {
            declared_by_step(*a)
        },
        Term::Bop(op, a, b) => {
            if op == BinOp::Sequence && *a is Val {
                Set::empty()
            } else if op == BinOp::Assign && *a is Var && *b is Val {
                Set::empty()
            } else if *a is Val && *b is Val {
                Set::empty()
            } else if *a is Val || (op == BinOp::Assign && *a is Var) {
                declared_by_step(*b)
            } else {
                declared_by_step(*a)
            }
        },
        Term::Ternary(c, _, _) => if *c is Val {
            Set::empty()
        } else {
            declared_by_step(*c)
        },
        Term::While(c, _, b, _, _) => {
            if *c matches Term::Val(Value::Bool(_)) {
                Set::empty()
            } else if *b is Val {
                if *c is Val {
                    Set::empty()
                } else {
                    declared_by_step(*c)
                }
            } else {
                declared_by_step(*b)
            }
        },
        Term::Decl(_, x, init, _) => match *init {
            Term::Val(_) => match *x {
                Term::Var(name) => set![name],
                _ => Set::empty(),
            },
            _ => declared_by_step(*init),
        },
        Term::FnCall(callee, args) => match *callee {
            Term::Val(Value::Func(_, _, _)) => {
                let i = first_non_value(args, 0);
                if 0 <= i < args.len() {
                    declared_by_step(args[i])
                } else {
                    Set::empty()
                }
            },
            Term::Val(_) => Set::empty(),
            _ => declared_by_step(*callee),
        },
        Term::Scope(a) => if *a is Val {
            Set::empty()
        } else {
            declared_by_step(*a)
        },
        Term::Print(a) => if *a is Val {
            Set::empty()
        } else {
            declared_by_step(*a)
        },
    }
}

/// The names that the evaluation of `t` declares at the top level, that is,
/// by the steps that it takes while no call is under way: while the term has
/// no scope marker pending.
pub open spec fn declared_at_top(m: Machine, t: Term, left: nat) -> Set<Seq<char>>
    decreases left,
{
    if t is Val || left == 0 {
        Set::empty()
    } else {
        let (m1, r) = step_of(m, t);
        match r {
            Ok(t1) => (if pending(t) == 0 {
                declared_by_step(t)
            } else {
                Set::empty()
            }).union(declared_at_top(m1, t1, (left - 1) as nat)),
            Err(_) => Set::empty(),
        }
    }
}

/// What a step does to the names of the frames that were there: the frames
/// below the innermost keep theirs, and the innermost, where it is still
/// there, has those it had and the one that the step has declared.
pub open spec fn keeps_names(before: Env, after: Env, declared: Set<Seq<char>>) -> bool {
    &&& before.len() - 1 <= after.len()
    &&& forall|i: int| 0 <= i < before.len() - 1 ==> (#[trigger] after[i]).dom() == before[i].dom()
    &&& after.len() >= before.len() ==> after[before.len() - 1].dom() == before.last().dom().union(
        declared,
    )
}

/// Binding in the innermost frame adds the name to that frame and leaves the
/// frames below as they are.
proof fn lemma_env_alloc_names(env: Env, name: Seq<char>, v: Value, mutable: bool)
    requires
        env.len() >= 1,
    ensures
        env_alloc(env, name, v, mutable).len() == env.len(),
        forall|i: int| 0 <= i < env.len() - 1 ==> (#[trigger] env_alloc(env, name, v, mutable)[i]) == env[i],
        env_alloc(env, name, v, mutable).last().dom() == env.last().dom().insert(name),
{
    let after = env_alloc(env, name, v, mutable);
    assert(after.last().dom() =~= env.last().dom().insert(name));
}

/// Assignment leaves every frame its names.
proof fn lemma_env_assign_names(env: Env, name: Seq<char>, v: Value)
    ensures
        env_assign(env, name, v) matches Ok(after) ==> after.len() == env.len() && forall|i: int|
            0 <= i < env.len() ==> (#[trigger] after[i]).dom() == env[i].dom(),
{
    lemma_env_find(env, name);
    if let Ok(after) = env_assign(env, name, v) {
        let k = env_find(env, name);
        assert forall|i: int| 0 <= i < env.len() implies (#[trigger] after[i]).dom()
            == env[i].dom() by {
            if i == k {
                assert(after[i].dom() =~= env[i].dom());
            }
        }
    }
}

/// Binding parameters leaves the frames below the innermost as they are.
proof fn lemma_bind_params_frames(env: Env, params: Seq<Term>, args: Seq<Term>, from: int)
    requires
        env.len() >= 1,
    ensures
        bind_params(env, params, args, from).0.len() == env.len(),
        forall|i: int|
            0 <= i < env.len() - 1 ==> (#[trigger] bind_params(env, params, args, from).0[i])
                == env[i],
    decreases params.len() - from,
{
    if !(from < 0 || from >= params.len() || from >= args.len()) {
        match params[from] {
            Term::Var(p) => {
                let next = env_alloc(env, p, value_of(args[from]), true);
                lemma_env_alloc_names(env, p, value_of(args[from]), true);
                lemma_bind_params_frames(next, params, args, from + 1);
            },
            _ => {},
        }
    }
}

/// A call binds in its own frame: it leaves the frames that were there as
/// they are, and puts one frame on top of them.
proof fn lemma_apply_frames(
    m: Machine,
    name: Option<Box<Term>>,
    body: Term,
    params: Seq<Term>,
    args: Seq<Term>,
)
    requires
        m.env.len() >= 1,
    ensures
        apply(m, name, body, params, args).0.env.len() == m.env.len() + 1,
        forall|i: int|
            0 <= i < m.env.len() ==> (#[trigger] apply(m, name, body, params, args).0.env[i])
                == m.env[i],
{
    let fresh = m.env.push(Map::<Seq<char>, Cell>::empty());
    lemma_bind_params_frames(fresh, params, args, 0);
    let bound = bind_params(fresh, params, args, 0).0;
    if let Some(n) = name {
        if let Term::Var(s) = *n {
            lemma_env_alloc_names(bound, s, Value::Func(name, Box::new(body), params), true);
        }
    }
    let after = apply(m, name, body, params, args).0.env;
    assert forall|i: int| 0 <= i < m.env.len() implies (#[trigger] after[i]) == m.env[i] by {
        assert(bound[i] == fresh[i]);
        assert(fresh[i] == m.env[i]);
    }
}

/// A step that yields a term leaves the frames below the innermost their
/// names, and adds to the names of the innermost the one that it declares.
#[verifier::spinoff_prover]
pub proof fn lemma_step_names(m: Machine, t: Term)
    requires
        m.env.len() >= 1,
    ensures
        step_of(m, t).1 is Ok ==> keeps_names(m.env, step_of(m, t).0.env, declared_by_step(t)),
    decreases t,
{
    let none = Set::<Seq<char>>::empty();
    assert(m.env.last().dom().union(none) =~= m.env.last().dom());
    match t {
        Term::Val(_) => {},
        Term::Var(_) => {},
        Term::Uop(_, a) => {
            if !(*a is Val) {
                lemma_step_names(m, *a);
            }
        },
        Term::Bop(op, a, b) => {
            if op == BinOp::Sequence && *a is Val {
            } else if op == BinOp::Assign && *a is Var && *b is Val {
                lemma_env_assign_names(m.env, a->Var_0, b->Val_0);
            } else if *a is Val && *b is Val {
            } else if *a is Val || (op == BinOp::Assign && *a is Var) {
                lemma_step_names(m, *b);
            } else {
                lemma_step_names(m, *a);
            }
        },
        Term::Ternary(c, _, _) => {
            if !(*c is Val) {
                lemma_step_names(m, *c);
            }
        },
        Term::While(c, _, b, _, _) => {
            if *c == Term::Val(Value::Bool(true)) || *c == Term::Val(Value::Bool(false)) {
            } else if *b is Val {
                if !(*c is Val) {
                    lemma_step_names(m, *c);
                }
            } else {
                lemma_step_names(m, *b);
            }
        },
        Term::Decl(kind, x, init, _) => {
            match *init {
                Term::Val(v) => {
                    if let Term::Var(name) = *x {
                        lemma_env_alloc_names(m.env, name, v, kind == Dec::DVar);
                        assert(m.env.last().dom().insert(name) =~= m.env.last().dom().union(
                            set![name],
                        ));
                    }
                },
                _ => {
                    lemma_step_names(m, *init);
                },
            }
        },
        Term::FnCall(callee, args) => {
            match *callee {
                Term::Val(Value::Func(name, body, params)) => {
                    let i = first_non_value(args, 0);
                    if 0 <= i < args.len() {
                        lemma_step_names(m, args[i]);
                    } else {
                        lemma_apply_frames(m, name, *body, params, args);
                    }
                },
                Term::Val(_) => {},
                _ => {
                    lemma_step_names(m, *callee);
                },
            }
        },
        Term::Scope(a) => {
            if !(*a is Val) {
                lemma_step_names(m, *a);
            }
        },
        Term::Print(a) => {
            if !(*a is Val) {
                lemma_step_names(m, *a);
            }
        },
    }
}

/// What an evaluation that comes to a value leaves of the names of the
/// frames on which it began, `base` in number: the frames below the last of
/// them keep theirs, and the last has those it had and those declared at the
/// top level.
pub open spec fn leaves_names(before: Env, base: int, after: Env, declared: Set<Seq<char>>) -> bool {
    &&& after.len() == base
    &&& forall|i: int| 0 <= i < base - 1 ==> (#[trigger] after[i]).dom() == before[i].dom()
    &&& after[base - 1].dom() == before[base - 1].dom().union(declared)
}

/// Evaluation of a well-scoped term, on a scope-free environment with more
/// frames than the term has scope markers pending: where it comes to a
/// value, the frames that no pending call had pushed are left, with the
/// names they had and, in the last of them, those declared at the top level.
pub proof fn lemma_run_names(m: Machine, t: Term, left: nat, limit: nat)
    requires
        well_scoped(t),
        env_scope_free(m.env),
        m.env.len() > pending(t),
    ensures
        run_of(m, t, left, limit).1 is Ok ==> leaves_names(
            m.env,
            m.env.len() - pending(t),
            run_of(m, t, left, limit).0.env,
            declared_at_top(m, t, left),
        ),
    decreases left,
{
    let base = m.env.len() - pending(t);
    let none = Set::<Seq<char>>::empty();
    if t is Val {
        assert(m.env[base - 1].dom().union(none) =~= m.env[base - 1].dom());
    } else if left > 0 {
        lemma_step_scoped(m, t);
        lemma_step_names(m, t);
        let (m1, r) = step_of(m, t);
        if let Ok(t1) = r {
            lemma_run_names(m1, t1, (left - 1) as nat, limit);
            let after = run_of(m, t, left, limit).0.env;
            let rest = declared_at_top(m1, t1, (left - 1) as nat);
            if run_of(m, t, left, limit).1 is Ok {
                if pending(t) == 0 {
                    assert(m.env[base - 1].dom().union(declared_by_step(t)).union(rest)
                        =~= m.env[base - 1].dom().union(declared_by_step(t).union(rest)));
                } else {
                    assert(none.union(rest) =~= rest);
                }
            }
        }
    }
}

} // verus!
