//! The environment: a stack of frames that bind names to cells.
use crate::expr::{Expr, Term, Val, Value};
use crate::runtime_error::{Failure, RuntimeError};
use vstd::hash_map::StringHashMap;
use vstd::prelude::*;

verus! {

/// What a name is bound to: a value, and whether assignment may replace it.
pub struct Binding {
    pub value: Val,
    pub mutable: bool,
}

/// The mathematical model of a [`Binding`].
pub struct Cell {
    pub value: Value,
    pub mutable: bool,
}

/// One frame of the environment: the cells it binds, by name.
pub type Frame = Map<Seq<char>, Cell>;

/// The mathematical model of the environment: its frames, the global frame
/// first and the innermost frame last.
pub type Env = Seq<Frame>;

impl View for Binding {
    type V = Cell;

    open spec fn view(&self) -> Cell {
        Cell { value: self.value@, mutable: self.mutable }
    }
}

/// The model of one stored frame.
pub open spec fn frame_of(m: Map<Seq<char>, Binding>) -> Frame {
    m.map_values(|b: Binding| b@)
}

/// The environment: the global frame, and above it the frames of the
/// function calls that are under way.
pub struct State {
    global: StringHashMap<Binding>,
    scopes: Vec<StringHashMap<Binding>>,
}

impl View for State {
    type V = Env;

    closed spec fn view(&self) -> Env {
        seq![frame_of(self.global@)] + Seq::new(
            self.scopes@.len(),
            |i: int| frame_of(self.scopes@[i]@),
        )
    }
}

/// The index of the innermost frame that binds `name`, or -1 where none does.
pub open spec fn env_find(env: Env, name: Seq<char>) -> int
    decreases env.len(),
{
    if env.len() == 0 {
        -1
    } else if env.last().contains_key(name) {
        env.len() - 1
    } else {
        env_find(env.drop_last(), name)
    }
}

/// `env_find` gives the greatest index of a frame that binds `name`, and -1
/// where no frame does.
pub proof fn lemma_env_find(env: Env, name: Seq<char>)
    ensures
        -1 <= env_find(env, name) < env.len(),
        env_find(env, name) >= 0 ==> env[env_find(env, name)].contains_key(name),
        forall|j: int| env_find(env, name) < j < env.len() ==> !(#[trigger] env[j]).contains_key(name),
    decreases env.len(),
{
    if env.len() > 0 && !env.last().contains_key(name) {
        let rest = env.drop_last();
        lemma_env_find(rest, name);
        assert forall|j: int| env_find(env, name) < j < env.len() implies !(#[trigger] env[j]).contains_key(
            name,
        ) by {
            if j < rest.len() {
                assert(rest[j] == env[j]);
            }
        }
    }
}

/// What `name` is bound to: the value in the innermost frame that binds it.
pub open spec fn env_get(env: Env, name: Seq<char>) -> Option<Value> {
    let i = env_find(env, name);
    if i < 0 {
        None
    } else {
        Some(env[i][name].value)
    }
}

/// The environment after binding `name` in the innermost frame.
pub open spec fn env_alloc(env: Env, name: Seq<char>, value: Value, mutable: bool) -> Env
    recommends
        env.len() > 0,
{
    env.update(env.len() - 1, env.last().insert(name, Cell { value, mutable }))
}

/// Assignment: the innermost cell that `name` is bound to takes the value,
/// unless there is none or it is immutable.
pub open spec fn env_assign(env: Env, name: Seq<char>, value: Value) -> Result<Env, Failure> {
    let i = env_find(env, name);
    if i < 0 {
        Err(Failure::VariableNotFound(name))
    } else if !env[i][name].mutable {
        Err(Failure::InvalidConstAssignment(Term::Val(value), name))
    } else {
        Ok(env.update(i, env[i].insert(name, Cell { value, mutable: true })))
    }
}

impl State {
    /// The environment always holds its global frame.
    pub proof fn lemma_has_global_frame(&self)
        ensures
            self@.len() >= 1,
    {
    }

    /// The initial environment: one empty frame, the global frame.
    pub fn new() -> (res: State)
        ensures
            res@ == seq![Map::<Seq<char>, Cell>::empty()],
    {
        let res = State { global: StringHashMap::new(), scopes: Vec::new() };
        assert(frame_of(res.global@) =~= Map::<Seq<char>, Cell>::empty());
        assert(res@ =~= seq![Map::<Seq<char>, Cell>::empty()]);
        res
    }

    /// The number of frames above the global frame.
    pub fn scope_depth(&self) -> (res: usize)
        ensures
            res == self@.len() - 1,
    {
        self.scopes.len()
    }

    /// Pushes an empty frame.
    pub fn begin_scope(&mut self)
        ensures
            final(self)@ == old(self)@.push(Map::<Seq<char>, Cell>::empty()),
    {
        self.scopes.push(StringHashMap::new());
        proof {
            let n = old(self).scopes@.len() as int;
            assert(frame_of(self.scopes@[n]@) =~= Map::<Seq<char>, Cell>::empty());
            assert(self@ =~= old(self)@.push(Map::<Seq<char>, Cell>::empty()));
        }
    }

    /// Pops the innermost frame. The global frame is never popped: asked to,
    /// the environment stays as it is and the call fails.
    pub fn end_scope(&mut self) -> (res: Result<(), RuntimeError>)
        ensures
            match res {
                Ok(_) => old(self)@.len() > 1 && final(self)@ == old(self)@.drop_last(),
                Err(e) => old(self)@.len() <= 1 && final(self)@ == old(self)@ && e@
                    == Failure::InvalidMemoryState(GLOBAL_FRAME_POPPED@),
            },
    {
        if self.scopes.len() == 0 {
            return Err(RuntimeError::InvalidMemoryState(GLOBAL_FRAME_POPPED.to_owned()));
        }
        self.scopes.pop();
        assert(self@ =~= old(self)@.drop_last());
        Ok(())
    }

    /// Binds `name` to a cell in the innermost frame; a cell that the frame
    /// already has under that name is replaced.
    fn bind(&mut self, name: String, value: Val, mutable: bool)
        ensures
            final(self)@ == env_alloc(old(self)@, name@, value@, mutable),
    {
        let n = self.scopes.len();
        let ghost cell = Cell { value: value@, mutable };
        if n == 0 {
            self.global.insert(name, Binding { value, mutable });
            assert(frame_of(self.global@) =~= frame_of(old(self).global@).insert(name@, cell));
        } else {
            self.scopes[n - 1].insert(name, Binding { value, mutable });
            assert(frame_of(self.scopes@[n - 1]@) =~= frame_of(old(self).scopes@[n - 1]@).insert(
                name@,
                cell,
            ));
        }
        assert(self@ =~= env_alloc(old(self)@, name@, value@, mutable));
    }

    /// The index, in the model, of the innermost frame that binds `name`.
    fn find(&self, name: &str) -> (res: Option<usize>)
        ensures
            match res {
                Some(i) => env_find(self@, name@) == i && i < self@.len() && self@[i as int].contains_key(
                    name@,
                ),
                None => env_find(self@, name@) == -1,
            },
    {
        let mut j: usize = self.scopes.len();
        assert(self@.take(j + 1) =~= self@);
        while j > 0
            invariant
                j <= self.scopes.len(),
                env_find(self@, name@) == env_find(self@.take(j + 1), name@),
            decreases j,
        {
            let ghost part = self@.take(j + 1);
            assert(part.last() == frame_of(self.scopes@[j - 1]@));
            assert(part.drop_last() =~= self@.take(j as int));
            if self.scopes[j - 1].contains_key(name) {
                return Some(j);
            }
            j = j - 1;
        }
        let ghost part = self@.take(1);
        assert(part.last() == frame_of(self.global@));
        assert(part.drop_last().len() == 0);
        if self.global.contains_key(name) {
            Some(0)
        } else {
            assert(env_find(part.drop_last(), name@) == -1);
            None
        }
    }

    /// The value that `name` is bound to in the innermost frame that binds it.
    pub fn get(&self, name: String) -> (res: Result<Val, RuntimeError>)
        ensures
            match res {
                Ok(v) => env_get(self@, name@) == Some(v@),
                Err(e) => env_get(self@, name@) is None && e@ == Failure::VariableNotFound(name@),
            },
    {
        match self.find(name.as_str()) {
            None => Err(RuntimeError::VariableNotFound(name)),
            Some(i) => {
                let found = if i == 0 {
                    self.global.get(name.as_str())
                } else {
                    self.scopes[i - 1].get(name.as_str())
                };
                match found {
                    Some(b) => Ok(b.value.clone()),
                    None => Err(RuntimeError::VariableNotFound(name)),
                }
            },
        }
    }

    /// Replaces the value of the innermost cell that `name` is bound to. Fails,
    /// and leaves the environment as it is, where no frame binds `name` or the
    /// cell is immutable.
    pub fn assign(&mut self, name: String, value: Val) -> (res: Result<(), RuntimeError>)
        ensures
            match res {
                Ok(_) => env_assign(old(self)@, name@, value@) == Ok::<Env, Failure>(final(self)@),
                Err(e) => final(self)@ == old(self)@ && env_assign(old(self)@, name@, value@)
                    == Err::<Env, Failure>(e@),
            },
    {
        match self.find(name.as_str()) {
            None => Err(RuntimeError::VariableNotFound(name)),
            Some(i) => {
                let found = if i == 0 {
                    self.global.get(name.as_str())
                } else {
                    self.scopes[i - 1].get(name.as_str())
                };
                let mutable = match found {
                    Some(b) => b.mutable,
                    None => false,
                };
                if !mutable {
                    return Err(RuntimeError::InvalidConstAssignment(Expr::Val(value), name));
                }
                let ghost cell = Cell { value: value@, mutable: true };
                if i == 0 {
                    self.global.insert(name, Binding { value, mutable: true });
                    assert(frame_of(self.global@) =~= frame_of(old(self).global@).insert(
                        name@,
                        cell,
                    ));
                } else {
                    self.scopes[i - 1].insert(name, Binding { value, mutable: true });
                    assert(frame_of(self.scopes@[i - 1]@) =~= frame_of(
                        old(self).scopes@[i - 1]@,
                    ).insert(name@, cell));
                }
                assert(self@ =~= old(self)@.update(
                    i as int,
                    old(self)@[i as int].insert(name@, cell),
                ));
                Ok(())
            },
        }
    }

    /// Binds `name` to a mutable cell in the innermost frame.
    pub fn alloc_var(&mut self, name: String, value: Val)
        ensures
            final(self)@ == env_alloc(old(self)@, name@, value@, true),
    {
        self.bind(name, value, true)
    }

    /// Binds `name` to an immutable cell in the innermost frame.
    pub fn alloc_const(&mut self, name: String, value: Val)
        ensures
            final(self)@ == env_alloc(old(self)@, name@, value@, false),
    {
        self.bind(name, value, false)
    }
}

/// The message of the failure to pop the global frame.
pub const GLOBAL_FRAME_POPPED: &'static str = "cannot end the global scope";

} // verus!
