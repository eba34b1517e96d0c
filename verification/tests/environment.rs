use boxx::expr::{Expr, Val};
use boxx::runtime_error::RuntimeError;
use boxx::state::State;

fn name(s: &str) -> String {
    s.to_string()
}

#[test]
fn the_initial_environment_is_one_empty_frame() {
    let mut state = State::new();
    assert_eq!(0, state.scope_depth());
    assert_eq!(Err(RuntimeError::VariableNotFound(name("x"))), state.get(name("x")));
    assert_eq!(
        Err(RuntimeError::InvalidMemoryState(name("cannot end the global scope"))),
        state.end_scope()
    );
    assert_eq!(0, state.scope_depth());
}

#[test]
fn binding_overwrites_in_the_innermost_frame() {
    let mut state = State::new();
    state.alloc_var(name("x"), Val::Int(1));
    assert_eq!(Ok(Val::Int(1)), state.get(name("x")));
    state.alloc_var(name("x"), Val::Bool(true));
    assert_eq!(Ok(Val::Bool(true)), state.get(name("x")));
    state.alloc_const(name("x"), Val::Int(3));
    assert_eq!(Ok(Val::Int(3)), state.get(name("x")));
    assert_eq!(
        Err(RuntimeError::InvalidConstAssignment(Expr::Val(Val::Int(4)), name("x"))),
        state.assign(name("x"), Val::Int(4))
    );
    assert_eq!(Ok(Val::Int(3)), state.get(name("x")));
}

#[test]
fn lookup_goes_from_the_innermost_frame_outward() {
    let mut state = State::new();
    state.alloc_var(name("x"), Val::Int(1));
    state.alloc_var(name("y"), Val::Int(10));
    state.begin_scope();
    assert_eq!(1, state.scope_depth());
    assert_eq!(Ok(Val::Int(1)), state.get(name("x")));
    state.alloc_var(name("x"), Val::Int(2));
    assert_eq!(Ok(Val::Int(2)), state.get(name("x")));
    assert_eq!(Ok(Val::Int(10)), state.get(name("y")));
    state.begin_scope();
    assert_eq!(Ok(Val::Int(2)), state.get(name("x")));
    assert_eq!(Ok(()), state.end_scope());
    assert_eq!(Ok(()), state.end_scope());
    assert_eq!(Ok(Val::Int(1)), state.get(name("x")));
    assert_eq!(0, state.scope_depth());
}

#[test]
fn assignment_goes_to_the_innermost_cell_of_the_name() {
    let mut state = State::new();
    state.alloc_var(name("x"), Val::Int(1));
    state.alloc_var(name("y"), Val::Int(10));
    state.begin_scope();
    state.alloc_var(name("x"), Val::Int(2));
    assert_eq!(Ok(()), state.assign(name("x"), Val::Int(3)));
    assert_eq!(Ok(()), state.assign(name("y"), Val::Int(11)));
    assert_eq!(Ok(Val::Int(3)), state.get(name("x")));
    assert_eq!(Ok(()), state.end_scope());
    assert_eq!(Ok(Val::Int(1)), state.get(name("x")));
    assert_eq!(Ok(Val::Int(11)), state.get(name("y")));
    assert_eq!(
        Err(RuntimeError::VariableNotFound(name("z"))),
        state.assign(name("z"), Val::Int(0))
    );
}

#[test]
fn an_immutable_cell_hides_a_mutable_one_below_it() {
    let mut state = State::new();
    state.alloc_var(name("x"), Val::Int(1));
    state.begin_scope();
    state.alloc_const(name("x"), Val::Int(2));
    assert_eq!(
        Err(RuntimeError::InvalidConstAssignment(Expr::Val(Val::Int(5)), name("x"))),
        state.assign(name("x"), Val::Int(5))
    );
    assert_eq!(Ok(()), state.end_scope());
    assert_eq!(Ok(()), state.assign(name("x"), Val::Int(5)));
    assert_eq!(Ok(Val::Int(5)), state.get(name("x")));
}
