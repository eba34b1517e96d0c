//! Scope markers and frames: which terms hold scope markers, and where, and
//! how reduction keeps the frames of the environment in step with them.
use crate::expr::{BinOp, Dec, Term, Value};
use crate::runtime_error::Failure;
use crate::semantics::{apply, bind_params, first_non_value, run_of, step_of, value_of, Machine};
use crate::state::{env_alloc, env_assign, env_find, env_get, lemma_env_find, Cell, Env};
use vstd::prelude::*;

verus! {

/// Whether a term holds no scope marker anywhere, not in the function values
/// inside it either. Such are the terms that a source text denotes.
pub open spec fn scope_free(t: Term) -> bool
    decreases t,
{
    match t {
        Term::Val(v) => match v {
            Value::Func(name, body, params) => {
                &&& name matches Some(n) ==> scope_free(*n)
                &&& scope_free(*body)
                &&& forall|i: int| 0 <= i < params.len() ==> scope_free(#[trigger] params[i])
            },
            _ => true,
        },
        Term::Var(_) => true,
        Term::Bop(_, a, b) => scope_free(*a) && scope_free(*b),
        Term::Uop(_, a) => scope_free(*a),
        Term::Ternary(a, b, c) => scope_free(*a) && scope_free(*b) && scope_free(*c),
        Term::While(a, b, c, d, e) => scope_free(*a) && scope_free(*b) && scope_free(*c)
            && scope_free(*d) && scope_free(*e),
        Term::Decl(_, a, b, c) => scope_free(*a) && scope_free(*b) && scope_free(*c),
        Term::FnCall(f, args) => {
            &&& scope_free(*f)
            &&& forall|i: int| 0 <= i < args.len() ==> scope_free(#[trigger] args[i])
        },
        Term::Scope(_) => false,
        Term::Print(a) => scope_free(*a),
    }
}

/// Whether every term of a list is scope-free.
pub open spec fn all_scope_free(ts: Seq<Term>) -> bool {
    forall|i: int| 0 <= i < ts.len() ==> scope_free(#[trigger] ts[i])
}

/// Whether every value that the environment holds is scope-free.
pub open spec fn env_scope_free(env: Env) -> bool {
    forall|i: int, name: Seq<char>|
        0 <= i < env.len() && #[trigger] env[i].contains_key(name) ==> scope_free(
            Term::Val(env[i][name].value),
        )
}

/// The number of scope markers of a term that await their value: those that
/// stand where reduction goes on.
pub open spec fn pending(t: Term) -> nat
    decreases t,
{
    match t {
        Term::Val(_) => 0,
        Term::Var(_) => 0,
        Term::Bop(_, a, b) => pending(*a) + pending(*b),
        Term::Uop(_, a) => pending(*a),
        Term::Ternary(c, _, _) => pending(*c),
        Term::While(c, _, b, _, _) => pending(*c) + pending(*b),
        Term::Decl(_, _, init, _) => pending(*init),
        Term::FnCall(f, args) => {
            let i = first_non_value(args, 0);
            pending(*f) + if 0 <= i < args.len() {
                pending(args[i])
            } else {
                0
            }
        },
        Term::Scope(a) => 1 + pending(*a),
        Term::Print(a) => pending(*a),
    }
}

/// Whether the scope markers of a term stand only where reduction goes on.
/// Such are the terms that reduction makes of scope-free terms.
pub open spec fn well_scoped(t: Term) -> bool
    decreases t,
{
    match t {
        Term::Val(_) => scope_free(t),
        Term::Var(_) => true,
        Term::Bop(op, a, b) => {
            ||| well_scoped(*a) && scope_free(*b)
            ||| scope_free(*a) && (*a is Val || (op == BinOp::Assign && *a is Var)) && well_scoped(
                *b,
            )
        },
        Term::Uop(_, a) => well_scoped(*a),
        Term::Ternary(c, yes, no) => well_scoped(*c) && scope_free(*yes) && scope_free(*no),
        Term::While(c, c0, b, b0, after) => {
            &&& scope_free(*c0)
            &&& scope_free(*b0)
            &&& scope_free(*after)
            &&& {
                ||| scope_free(*c) && scope_free(*b)
                ||| scope_free(*c) && !(*c matches Term::Val(Value::Bool(_))) && well_scoped(*b)
                ||| well_scoped(*c) && *b is Val && scope_free(*b)
            }
        },
        Term::Decl(_, x, init, body) => scope_free(*x) && well_scoped(*init) && scope_free(*body),
        Term::FnCall(f, args) => {
            ||| well_scoped(*f) && all_scope_free(args)
            ||| {
                let i = first_non_value(args, 0);
                &&& *f is Val
                &&& scope_free(*f)
                &&& forall|j: int| 0 <= j < args.len() && j != i ==> scope_free(#[trigger] args[j])
                &&& 0 <= i < args.len() ==> well_scoped(args[i])
            }
        },
        Term::Scope(a) => well_scoped(*a),
        Term::Print(a) => well_scoped(*a),
    }
}

/// A scope-free term is well scoped, and none of its scope markers is
/// pending: it has none.
pub proof fn lemma_scope_free(t: Term)
    requires
        scope_free(t),
    ensures
        well_scoped(t),
        pending(t) == 0,
    decreases t,
{
    match t {
        Term::Val(_) => {},
        Term::Var(_) => {},
        Term::Bop(_, a, b) => {
            lemma_scope_free(*a);
            lemma_scope_free(*b);
        },
        Term::Uop(_, a) => {
            lemma_scope_free(*a);
        },
        Term::Ternary(c, _, _) => {
            lemma_scope_free(*c);
        },
        Term::While(c, _, b, _, _) => {
            lemma_scope_free(*c);
            lemma_scope_free(*b);
        },
        Term::Decl(_, _, init, _) => {
            lemma_scope_free(*init);
        },
        Term::FnCall(f, args) => {
            lemma_scope_free(*f);
            let i = first_non_value(args, 0);
            if 0 <= i < args.len() {
                lemma_scope_free(args[i]);
            }
        },
        Term::Scope(_) => {},
        Term::Print(a) => {
            lemma_scope_free(*a);
        },
    }
}

/// The value that a scope-free environment binds a name to is scope-free.
pub proof fn lemma_env_get_scope_free(env: Env, name: Seq<char>)
    requires
        env_scope_free(env),
    ensures
        env_get(env, name) matches Some(v) ==> scope_free(Term::Val(v)),
{
    lemma_env_find(env, name);
}

/// Binding a scope-free value keeps the environment scope-free.
pub proof fn lemma_env_alloc_scope_free(env: Env, name: Seq<char>, v: Value, mutable: bool)
    requires
        env_scope_free(env),
        scope_free(Term::Val(v)),
        env.len() >= 1,
    ensures
        env_scope_free(env_alloc(env, name, v, mutable)),
        env_alloc(env, name, v, mutable).len() == env.len(),
{
    let after = env_alloc(env, name, v, mutable);
    assert forall|i: int, n: Seq<char>|
        0 <= i < after.len() && #[trigger] after[i].contains_key(n) implies scope_free(
        Term::Val(after[i][n].value),
    ) by {
        if i == env.len() - 1 && n == name {
        } else {
            assert(env[i].contains_key(n));
        }
    }
}

/// Assigning a scope-free value keeps the environment scope-free.
pub proof fn lemma_env_assign_scope_free(env: Env, name: Seq<char>, v: Value)
    requires
        env_scope_free(env),
        scope_free(Term::Val(v)),
    ensures
        env_assign(env, name, v) matches Ok(after) ==> env_scope_free(after) && after.len()
            == env.len(),
{
    lemma_env_find(env, name);
    if let Ok(after) = env_assign(env, name, v) {
        let k = env_find(env, name);
        assert forall|i: int, n: Seq<char>|
            0 <= i < after.len() && #[trigger] after[i].contains_key(n) implies scope_free(
            Term::Val(after[i][n].value),
        ) by {
            if i == k && n == name {
            } else {
                assert(env[i].contains_key(n));
            }
        }
    }
}

/// Binding parameters to scope-free arguments keeps the environment
/// scope-free, whether or not the binding fails.
pub proof fn lemma_bind_params_scope_free(
    env: Env,
    params: Seq<Term>,
    args: Seq<Term>,
    from: int,
)
    requires
        env_scope_free(env),
        env.len() >= 1,
        all_scope_free(args),
    ensures
        env_scope_free(bind_params(env, params, args, from).0),
        bind_params(env, params, args, from).0.len() == env.len(),
    decreases params.len() - from,
{
    if !(from < 0 || from >= params.len() || from >= args.len()) {
        match params[from] {
            Term::Var(p) => {
                let v = value_of(args[from]);
                assert(scope_free(args[from]));
                assert(scope_free(Term::Val(v)));
                lemma_env_alloc_scope_free(env, p, v, true);
                lemma_bind_params_scope_free(env_alloc(env, p, v, true), params, args, from + 1);
            },
            _ => {},
        }
    }
}

/// Applying a scope-free function value to scope-free arguments pushes one
/// frame and leaves one scope marker pending.
pub proof fn lemma_apply_scoped(
    m: Machine,
    name: Option<Box<Term>>,
    body: Term,
    params: Seq<Term>,
    args: Seq<Term>,
)
    requires
        env_scope_free(m.env),
        m.env.len() >= 1,
        scope_free(Term::Val(Value::Func(name, Box::new(body), params))),
        all_scope_free(args),
    ensures
        env_scope_free(apply(m, name, body, params, args).0.env),
        apply(m, name, body, params, args).0.env.len() == m.env.len() + 1,
        apply(m, name, body, params, args).1 matches Ok(t1) ==> well_scoped(t1) && pending(t1)
            == 1,
{
    let fresh = m.env.push(Map::<Seq<char>, Cell>::empty());
    assert(env_scope_free(fresh)) by {
        assert forall|i: int, n: Seq<char>|
            0 <= i < fresh.len() && #[trigger] fresh[i].contains_key(n) implies scope_free(
            Term::Val(fresh[i][n].value),
        ) by {
            if i < m.env.len() {
                assert(m.env[i].contains_key(n));
            }
        }
    }
    lemma_bind_params_scope_free(fresh, params, args, 0);
    let bound = bind_params(fresh, params, args, 0).0;
    if let Some(n) = name {
        if let Term::Var(s) = *n {
            lemma_env_alloc_scope_free(bound, s, Value::Func(name, Box::new(body), params), true);
        }
    }
    lemma_scope_free(body);
}

/// The first term that is no value: it is within the list or its length, the
/// terms before it are values, and it is none.
pub proof fn lemma_first_non_value(args: Seq<Term>, from: int)
    requires
        0 <= from <= args.len(),
    ensures
        from <= first_non_value(args, from) <= args.len(),
        first_non_value(args, from) < args.len() ==> !(args[first_non_value(args, from)] is Val),
        forall|k: int| from <= k < first_non_value(args, from) ==> #[trigger] args[k] is Val,
    decreases args.len() - from,
{
    if from < args.len() && args[from] is Val {
        lemma_first_non_value(args, from + 1);
    }
}

/// A list whose terms from `from` up to `i` are values, and whose term at `i`
/// is none or which ends there, has its first term that is no value at `i`.
pub proof fn lemma_first_non_value_at(args: Seq<Term>, from: int, i: int)
    requires
        0 <= from <= i <= args.len(),
        forall|k: int| from <= k < i ==> #[trigger] args[k] is Val,
        i < args.len() ==> !(args[i] is Val),
    ensures
        first_non_value(args, from) == i,
    decreases i - from,
{
    if from < i {
        assert(args[from] is Val);
        lemma_first_non_value_at(args, from + 1, i);
    }
}

/// A value has no pending scope marker, and is well scoped where it is
/// scope-free.
pub proof fn lemma_value_scoping(t: Term)
    requires
        t is Val,
    ensures
        pending(t) == 0,
        well_scoped(t) == scope_free(t),
{
}

/// What a step keeps: the environment stays scope-free, also where the step
/// fails; and where it yields a term, the term is well scoped and the frames
/// of the environment have kept pace with its pending scope markers.
pub open spec fn keeps_scoping(m: Machine, t: Term, after: (Machine, Result<Term, Failure>)) -> bool {
    &&& env_scope_free(after.0.env)
    &&& after.0.env.len() >= 1
    &&& after.1 matches Ok(t1) ==> {
        &&& well_scoped(t1)
        &&& after.0.env.len() + pending(t) == m.env.len() + pending(t1)
    }
}

/// A step on a well-scoped term and a scope-free environment keeps both so,
/// and pushes or pops a frame exactly where it adds or removes a pending
/// scope marker.
#[verifier::spinoff_prover]
pub proof fn lemma_step_scoped(m: Machine, t: Term)
    requires
        well_scoped(t),
        env_scope_free(m.env),
        m.env.len() >= 1,
    ensures
        keeps_scoping(m, t, step_of(m, t)),
    decreases t,
{
    match t {
        Term::Val(_) => {},
        Term::Var(x) => {
            lemma_env_get_scope_free(m.env, x);
        },
        Term::Uop(op, a) => {
            if !(*a is Val) {
                lemma_step_scoped(m, *a);
            } else {
                lemma_value_scoping(*a);
            }
        },
        Term::Bop(op, a, b) => {
            if scope_free(*a) {
                lemma_scope_free(*a);
            }
            if scope_free(*b) {
                lemma_scope_free(*b);
            }
            if *a is Val {
                lemma_value_scoping(*a);
            }
            if *b is Val {
                lemma_value_scoping(*b);
            }
            if op == BinOp::Sequence && *a is Val {
            } else if op == BinOp::Assign && *a is Var && *b is Val {
                assert(well_scoped(*b) ==> scope_free(*b));
                assert(*b == Term::Val(b->Val_0));
                lemma_env_assign_scope_free(m.env, a->Var_0, b->Val_0);
            } else if *a is Val && *b is Val {
            } else if *a is Val || (op == BinOp::Assign && *a is Var) {
                lemma_step_scoped(m, *b);
            } else {
                lemma_step_scoped(m, *a);
            }
        },
        Term::Ternary(c, yes, no) => {
            lemma_scope_free(*yes);
            lemma_scope_free(*no);
            if !(*c is Val) {
                lemma_step_scoped(m, *c);
            } else {
                lemma_value_scoping(*c);
            }
        },
        Term::While(c, c0, b, b0, after) => {
            lemma_scope_free(*c0);
            lemma_scope_free(*b0);
            lemma_scope_free(*after);
            if scope_free(*c) {
                lemma_scope_free(*c);
            }
            if scope_free(*b) {
                lemma_scope_free(*b);
            }
            if *c is Val {
                lemma_value_scoping(*c);
            }
            if *b is Val {
                lemma_value_scoping(*b);
            }
            if *c == Term::Val(Value::Bool(true)) {
            } else if *c == Term::Val(Value::Bool(false)) {
            } else if *b is Val {
                if !(*c is Val) {
                    lemma_step_scoped(m, *c);
                }
            } else {
                lemma_step_scoped(m, *b);
            }
        },
        Term::Decl(kind, x, init, body) => {
            lemma_scope_free(*body);
            match *init {
                Term::Val(v) => {
                    lemma_value_scoping(*init);
                    if let Term::Var(name) = *x {
                        lemma_env_alloc_scope_free(m.env, name, v, kind == Dec::DVar);
                    }
                },
                _ => {
                    lemma_step_scoped(m, *init);
                },
            }
        },
        Term::FnCall(callee, args) => {
            lemma_step_scoped_call(m, *callee, args);
        },
        Term::Scope(a) => {
            match *a {
                Term::Val(v) => {
                    lemma_value_scoping(*a);
                    if m.env.len() > 1 {
                        let popped = m.env.drop_last();
                        assert forall|i: int, n: Seq<char>|
                            0 <= i < popped.len() && #[trigger] popped[i].contains_key(
                                n,
                            ) implies scope_free(Term::Val(popped[i][n].value)) by {
                            assert(m.env[i].contains_key(n));
                        }
                    }
                },
                _ => {
                    lemma_step_scoped(m, *a);
                },
            }
        },
        Term::Print(a) => {
            if !(*a is Val) {
                lemma_step_scoped(m, *a);
            } else {
                lemma_value_scoping(*a);
            }
        },
    }
}

/// The step lemma for a call.
#[verifier::spinoff_prover]
pub proof fn lemma_step_scoped_call(m: Machine, callee: Term, args: Seq<Term>)
    requires
        well_scoped(Term::FnCall(Box::new(callee), args)),
        env_scope_free(m.env),
        m.env.len() >= 1,
    ensures
        keeps_scoping(
            m,
            Term::FnCall(Box::new(callee), args),
            step_of(m, Term::FnCall(Box::new(callee), args)),
        ),
    decreases Term::FnCall(Box::new(callee), args), 0nat,
{
    let t = Term::FnCall(Box::new(callee), args);
    let i = first_non_value(args, 0);
    lemma_first_non_value(args, 0);
    if scope_free(callee) {
        lemma_scope_free(callee);
    }
    if callee is Val {
        assert(well_scoped(callee) ==> scope_free(callee));
        assert(pending(callee) == 0);
    }
    if 0 <= i < args.len() && scope_free(args[i]) {
        lemma_scope_free(args[i]);
    }
    match callee {
        Term::Val(Value::Func(name, body, params)) => {
            if 0 <= i < args.len() {
                assert(well_scoped(args[i]));
                lemma_step_scoped(m, args[i]);
                let (m1, r) = step_of(m, args[i]);
                if let Ok(a1) = r {
                    let args1 = args.update(i, a1);
                    let t1 = Term::FnCall(Box::new(callee), args1);
                    let i1 = first_non_value(args1, 0);
                    lemma_first_non_value(args1, 0);
                    if a1 is Val {
                        assert(i1 != i);
                        assert(scope_free(a1));
                        assert(pending(a1) == 0);
                    } else {
                        lemma_first_non_value_at(args1, 0, i);
                    }
                    assert forall|j: int| 0 <= j < args1.len() && j != i1 implies scope_free(
                        #[trigger] args1[j],
                    ) by {
                        if j != i {
                            assert(args1[j] == args[j]);
                        }
                    }
                    if 0 <= i1 < args1.len() && i1 != i {
                        assert(args1[i1] == args[i1]);
                        lemma_scope_free(args1[i1]);
                    }
                    assert(0 <= i1 < args1.len() ==> well_scoped(args1[i1]));
                    assert(scope_free(callee));
                    assert(well_scoped(t1));
                    assert(pending(t1) == pending(a1));
                }
            } else {
                assert(all_scope_free(args));
                lemma_apply_scoped(m, name, *body, params, args);
            }
        },
        Term::Val(_) => {},
        _ => {
            lemma_step_scoped(m, callee);
        },
    }
}

/// A step on a well-scoped term never pops the global frame: where the
/// environment has more frames than the term has scope markers pending, the
/// step does not fail for the state of the memory.
#[verifier::spinoff_prover]
pub proof fn lemma_step_keeps_global_frame(m: Machine, t: Term)
    requires
        well_scoped(t),
        m.env.len() > pending(t),
    ensures
        !(step_of(m, t).1 matches Err(Failure::InvalidMemoryState(_))),
    decreases t,
{
    match t {
        Term::Val(_) => {},
        Term::Var(_) => {},
        Term::Uop(_, a) => {
            if !(*a is Val) {
                lemma_step_keeps_global_frame(m, *a);
            }
        },
        Term::Bop(op, a, b) => {
            if scope_free(*a) {
                lemma_scope_free(*a);
            }
            if scope_free(*b) {
                lemma_scope_free(*b);
            }
            if op == BinOp::Sequence && *a is Val {
            } else if op == BinOp::Assign && *a is Var && *b is Val {
            } else if *a is Val && *b is Val {
            } else if *a is Val || (op == BinOp::Assign && *a is Var) {
                lemma_step_keeps_global_frame(m, *b);
            } else {
                lemma_step_keeps_global_frame(m, *a);
            }
        },
        Term::Ternary(c, _, _) => {
            if !(*c is Val) {
                lemma_step_keeps_global_frame(m, *c);
            }
        },
        Term::While(c, _, b, _, _) => {
            if scope_free(*c) {
                lemma_scope_free(*c);
            }
            if scope_free(*b) {
                lemma_scope_free(*b);
            }
            if *c == Term::Val(Value::Bool(true)) || *c == Term::Val(Value::Bool(false)) {
            } else if *b is Val {
                if !(*c is Val) {
                    lemma_step_keeps_global_frame(m, *c);
                }
            } else {
                lemma_step_keeps_global_frame(m, *b);
            }
        },
        Term::Decl(_, _, init, _) => {
            if !(*init is Val) {
                lemma_step_keeps_global_frame(m, *init);
            }
        },
        Term::FnCall(callee, args) => {
            let i = first_non_value(args, 0);
            lemma_first_non_value(args, 0);
            if scope_free(*callee) {
                lemma_scope_free(*callee);
            }
            match *callee {
                Term::Val(Value::Func(name, body, params)) => {
                    if 0 <= i < args.len() {
                        if scope_free(args[i]) {
                            lemma_scope_free(args[i]);
                        }
                        lemma_step_keeps_global_frame(m, args[i]);
                    } else {
                        lemma_bind_params_failure(
                            m.env.push(Map::<Seq<char>, Cell>::empty()),
                            params,
                            args,
                            0,
                        );
                    }
                },
                Term::Val(_) => {},
                _ => {
                    lemma_step_keeps_global_frame(m, *callee);
                },
            }
        },
        Term::Scope(a) => {
            if !(*a is Val) {
                lemma_step_keeps_global_frame(m, *a);
            }
        },
        Term::Print(a) => {
            if !(*a is Val) {
                lemma_step_keeps_global_frame(m, *a);
            }
        },
    }
}

/// Binding parameters fails on nothing but a parameter that is no variable.
pub proof fn lemma_bind_params_failure(env: Env, params: Seq<Term>, args: Seq<Term>, from: int)
    ensures
        bind_params(env, params, args, from).1 matches Some(f) ==> f is InvalidTypeConversion,
    decreases params.len() - from,
{
    if !(from < 0 || from >= params.len() || from >= args.len()) {
        match params[from] {
            Term::Var(p) => {
                lemma_bind_params_failure(
                    env_alloc(env, p, value_of(args[from]), true),
                    params,
                    args,
                    from + 1,
                );
            },
            _ => {},
        }
    }
}

/// Evaluation of a well-scoped term on a scope-free environment leaves the
/// environment scope-free; and where it comes to a value, it has popped as
/// many frames more than it has pushed as the term had scope markers
/// pending.
pub proof fn lemma_run_scoped(m: Machine, t: Term, left: nat, limit: nat)
    requires
        well_scoped(t),
        env_scope_free(m.env),
        m.env.len() >= 1,
    ensures
        env_scope_free(run_of(m, t, left, limit).0.env),
        run_of(m, t, left, limit).0.env.len() >= 1,
        run_of(m, t, left, limit).1 is Ok ==> run_of(m, t, left, limit).0.env.len() + pending(t)
            == m.env.len(),
    decreases left,
{
    if t is Val {
        lemma_value_scoping(t);
    } else if left > 0 {
        lemma_step_scoped(m, t);
        let (m1, r) = step_of(m, t);
        if let Ok(t1) = r {
            lemma_run_scoped(m1, t1, (left - 1) as nat, limit);
        }
    }
}

} // verus!
