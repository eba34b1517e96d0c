use boxx::expr::{BinOp, Dec, Expr, UnOp, Val};
use boxx::interpreter::{apply_binary, apply_unary, checked_arith, Interpreter};
use boxx::parser::parser::parse;
use boxx::runtime_error::RuntimeError;

fn num(n: isize) -> Expr {
    Expr::Val(Val::Int(n))
}

fn boolean(b: bool) -> Expr {
    Expr::Val(Val::Bool(b))
}

fn var(name: &str) -> Expr {
    Expr::Var(name.to_string())
}

fn bop(op: BinOp, a: Expr, b: Expr) -> Expr {
    Expr::Bop(op, Box::new(a), Box::new(b))
}

fn eval(input: &str) -> Result<Expr, RuntimeError> {
    Interpreter::new().eval(input)
}

#[test]
fn value_evaluates_to_itself() {
    let mut interpreter = Interpreter::new();
    assert_eq!(Ok(num(7)), interpreter.run(num(7)));
    assert_eq!(Ok(boolean(false)), interpreter.run(boolean(false)));
    assert_eq!(Ok(Expr::Val(Val::Undefined)), interpreter.run(Expr::Val(Val::Undefined)));
    let function = Expr::Val(Val::Func(None, Box::new(var("x")), vec![var("x")]));
    assert_eq!(Ok(function.clone()), interpreter.run(function));
    assert_eq!(Ok(num(7)), interpreter.run_within(num(7), 0));
    assert_eq!(0, interpreter.state.scope_depth());
}

#[test]
fn stepping_on_a_value_fails() {
    let mut interpreter = Interpreter::new();
    assert_eq!(Err(RuntimeError::SteppingOnValue(num(7))), interpreter.step(num(7)));
    assert_eq!(
        Err(RuntimeError::SteppingOnValue(Expr::Val(Val::Undefined))),
        interpreter.step(Expr::Val(Val::Undefined))
    );
}

#[test]
fn a_variable_is_no_value() {
    assert!(!var("x").is_value());
    assert!(num(1).is_value());
    let mut interpreter = Interpreter::new();
    assert_eq!(Err(RuntimeError::VariableNotFound("x".to_string())), interpreter.step(var("x")));
}

#[test]
fn two_interpreters_agree() {
    let source = "var n = 0; fn next(k) { k * 3 + 1 }; while (n < 50) { n = next(n) }; n";
    let mut first = Interpreter::new();
    let mut second = Interpreter::new();
    assert_eq!(first.eval(source), second.eval(source));
    assert_eq!(first.eval("n + 1"), second.eval("n + 1"));
    assert_eq!(first.eval("missing"), second.eval("missing"));
    assert_eq!(Ok(num(121)), first.eval("n"));
}

#[test]
fn single_steps_follow_the_rules() {
    let mut interpreter = Interpreter::new();
    // the left operand is reduced first
    let term = bop(BinOp::Plus, bop(BinOp::Plus, num(1), num(2)), bop(BinOp::Times, num(3), num(4)));
    let term = interpreter.step(term).unwrap();
    assert_eq!(bop(BinOp::Plus, num(3), bop(BinOp::Times, num(3), num(4))), term);
    let term = interpreter.step(term).unwrap();
    assert_eq!(bop(BinOp::Plus, num(3), num(12)), term);
    let term = interpreter.step(term).unwrap();
    assert_eq!(num(15), term);
    // a sequence drops its left value
    assert_eq!(Ok(var("x")), interpreter.step(bop(BinOp::Sequence, num(1), var("x"))));
    // a conditional picks a branch without reducing it
    let pick = Expr::Ternary(Box::new(boolean(false)), Box::new(num(1)), Box::new(var("y")));
    assert_eq!(Ok(var("y")), interpreter.step(pick));
}

#[test]
fn step_never_stalls_on_a_term_that_is_no_value() {
    let mut interpreter = Interpreter::new();
    let not_int = Expr::Uop(UnOp::Not, Box::new(num(3)));
    assert_eq!(
        Err(RuntimeError::InvalidTypeConversion("bool".to_string(), num(3))),
        interpreter.step(not_int)
    );
    let neg_bool = Expr::Uop(UnOp::Neg, Box::new(boolean(true)));
    assert_eq!(
        Err(RuntimeError::InvalidTypeConversion("int".to_string(), boolean(true))),
        interpreter.step(neg_bool)
    );
    let assign_to_value = bop(BinOp::Assign, num(1), num(2));
    assert_eq!(
        Err(RuntimeError::InvalidTypeConversion("var".to_string(), num(1))),
        interpreter.step(assign_to_value)
    );
    let call_of_int = Expr::FnCall(Box::new(num(1)), vec![]);
    assert_eq!(
        Err(RuntimeError::InvalidTypeConversion("func".to_string(), num(1))),
        interpreter.step(call_of_int)
    );
    let cond_int = Expr::Ternary(Box::new(num(1)), Box::new(num(2)), Box::new(num(3)));
    assert_eq!(
        Err(RuntimeError::InvalidTypeConversion("bool".to_string(), num(1))),
        interpreter.step(cond_int)
    );
    let decl_of_value = Expr::Decl(Dec::DVar, Box::new(num(1)), Box::new(num(2)), Box::new(num(3)));
    assert_eq!(
        Err(RuntimeError::InvalidTypeConversion("var".to_string(), num(1))),
        interpreter.step(decl_of_value)
    );
    let loop_on_int = Expr::While(
        Box::new(num(1)),
        Box::new(num(1)),
        Box::new(num(2)),
        Box::new(num(2)),
        Box::new(num(3)),
    );
    assert_eq!(
        Err(RuntimeError::InvalidTypeConversion("bool".to_string(), num(1))),
        interpreter.step(loop_on_int)
    );
}

#[test]
fn type_errors_are_found_where_they_matter() {
    assert_eq!(
        Err(RuntimeError::InvalidTypeConversion("bool".to_string(), num(1))),
        eval("1 && true")
    );
    assert_eq!(
        Err(RuntimeError::InvalidTypeConversion("bool".to_string(), num(2))),
        eval("true || 2")
    );
    assert_eq!(
        Err(RuntimeError::InvalidTypeConversion("int".to_string(), boolean(true))),
        eval("1 + true")
    );
    assert_eq!(
        Err(RuntimeError::InvalidTypeConversion("int".to_string(), boolean(false))),
        eval("false < 1")
    );
    // the branch that is not taken is never reduced
    assert_eq!(Ok(num(1)), eval("true ? 1 : (1 && true)"));
    assert_eq!(Ok(num(5)), eval("3; 5"));
}

#[test]
fn scopes_are_balanced_after_evaluation() {
    let mut interpreter = Interpreter::new();
    assert_eq!(0, interpreter.state.scope_depth());
    let source = "fn fib(n) { n == 0 ? 0 : (n == 1 ? 1 : fib(n - 1) + fib(n - 2)) }; fib(8)";
    assert_eq!(Ok(num(21)), interpreter.eval(source));
    assert_eq!(0, interpreter.state.scope_depth());
    assert_eq!(Ok(num(34)), interpreter.eval("fib(9)"));
    assert_eq!(0, interpreter.state.scope_depth());
    assert_eq!(Ok(num(3)), interpreter.eval("var top = 3; fn id(x) { x }; id(id(id(top)))"));
    assert_eq!(0, interpreter.state.scope_depth());
    // what the text declared at the top stays
    assert_eq!(Ok(num(3)), interpreter.eval("top"));
}

#[test]
fn only_what_was_declared_at_the_top_stays_bound() {
    let mut interpreter = Interpreter::new();
    let source = "var a = 1; fn f(p) { var local = p + 1; let hidden = 3; local * hidden }; \
                  if (a == 1) { var chosen = 5 } else { var other = 6 }; f(a)";
    assert_eq!(Ok(num(6)), interpreter.eval(source));
    assert_eq!(0, interpreter.state.scope_depth());
    assert_eq!(Ok(Val::Int(1)), interpreter.state.get("a".to_string()));
    assert_eq!(Ok(Val::Int(5)), interpreter.state.get("chosen".to_string()));
    assert!(interpreter.state.get("f".to_string()).is_ok());
    for name in ["p", "local", "hidden", "other"] {
        assert_eq!(
            Err(RuntimeError::VariableNotFound(name.to_string())),
            interpreter.state.get(name.to_string())
        );
    }
    // an anonymous function bound by a declaration: its parameter goes with the call
    assert_eq!(Ok(num(9)), interpreter.eval("var g = fn(q) { q * q }; g(3)"));
    assert_eq!(
        Err(RuntimeError::VariableNotFound("q".to_string())),
        interpreter.state.get("q".to_string())
    );
    // assignment within a call reaches the frames below and binds nothing new
    assert_eq!(Ok(num(7)), interpreter.eval("fn set(v) { a = v; var a2 = v; a2 }; set(7)"));
    assert_eq!(Ok(Val::Int(7)), interpreter.state.get("a".to_string()));
    assert_eq!(
        Err(RuntimeError::VariableNotFound("a2".to_string())),
        interpreter.state.get("a2".to_string())
    );
}

#[test]
fn a_call_pushes_a_frame_and_its_scope_pops_it() {
    let mut interpreter = Interpreter::new();
    let call = parse("fn(a) { a + 1 }(2)").unwrap();
    let term = interpreter.step(call).unwrap();
    assert_eq!(1, interpreter.state.scope_depth());
    assert_eq!(Expr::Scope(Box::new(bop(BinOp::Plus, var("a"), num(1)))), term);
    let term = interpreter.step(term).unwrap();
    assert_eq!(Expr::Scope(Box::new(bop(BinOp::Plus, num(2), num(1)))), term);
    let term = interpreter.step(term).unwrap();
    assert_eq!(Expr::Scope(Box::new(num(3))), term);
    assert_eq!(1, interpreter.state.scope_depth());
    let term = interpreter.step(term).unwrap();
    assert_eq!(num(3), term);
    assert_eq!(0, interpreter.state.scope_depth());
}

#[test]
fn popping_the_global_frame_fails() {
    let mut interpreter = Interpreter::new();
    let stray = Expr::Scope(Box::new(num(1)));
    assert_eq!(
        Err(RuntimeError::InvalidMemoryState("cannot end the global scope".to_string())),
        interpreter.step(stray)
    );
    assert_eq!(0, interpreter.state.scope_depth());
}

#[test]
fn modulus_has_the_sign_of_the_divisor() {
    assert_eq!(Ok(3), checked_arith(BinOp::Mod, -7, 5));
    assert_eq!(Ok(-2), checked_arith(BinOp::Mod, -7, -5));
    assert_eq!(Ok(2), checked_arith(BinOp::Mod, 7, 5));
    assert_eq!(Ok(-3), checked_arith(BinOp::Mod, 7, -5));
    assert_eq!(Ok(0), checked_arith(BinOp::Mod, 10, 5));
    assert_eq!(Ok(0), checked_arith(BinOp::Mod, -10, -5));
    assert_eq!(Ok(0), checked_arith(BinOp::Mod, 0, 3));
    for a in -20..21isize {
        for b in [-7isize, -3, -1, 1, 2, 5] {
            let r = checked_arith(BinOp::Mod, a, b).unwrap();
            if b > 0 {
                assert!(0 <= r && r < b);
            } else {
                assert!(b < r && r <= 0);
            }
            assert_eq!(0, (r - a) % b);
        }
    }
    assert_eq!(Ok(num(3)), eval("-7 % 5"));
    assert_eq!(Ok(num(-2)), eval("-7 % -5"));
}

#[test]
fn modulus_fails_where_a_step_of_its_formula_does() {
    assert_eq!(Err(RuntimeError::IntegerUnderflow), checked_arith(BinOp::Mod, 1, 0));
    assert_eq!(Err(RuntimeError::IntegerUnderflow), checked_arith(BinOp::Mod, isize::MIN, -1));
    assert_eq!(
        Err(RuntimeError::IntegerUnderflow),
        checked_arith(BinOp::Mod, isize::MAX - 1, isize::MAX)
    );
    assert_eq!(Ok(isize::MAX - 1), checked_arith(BinOp::Mod, -1, isize::MAX));
}

#[test]
fn arithmetic_is_checked() {
    assert_eq!(Err(RuntimeError::IntegerOverflow), checked_arith(BinOp::Plus, isize::MAX, 1));
    assert_eq!(Err(RuntimeError::IntegerUnderflow), checked_arith(BinOp::Minus, isize::MIN, 1));
    assert_eq!(Err(RuntimeError::IntegerOverflow), checked_arith(BinOp::Times, isize::MAX, 2));
    assert_eq!(Err(RuntimeError::IntegerUnderflow), checked_arith(BinOp::Div, 5, 0));
    assert_eq!(Err(RuntimeError::IntegerUnderflow), checked_arith(BinOp::Div, isize::MIN, -1));
    assert_eq!(Err(RuntimeError::IntegerUnderflow), checked_arith(BinOp::Mod, 5, 0));
    assert_eq!(Ok(isize::MAX), checked_arith(BinOp::Plus, isize::MAX - 1, 1));
    assert_eq!(Ok(isize::MIN), checked_arith(BinOp::Minus, isize::MIN + 1, 1));
    assert_eq!(Ok(-3), checked_arith(BinOp::Div, -7, 2));
    assert_eq!(Ok(-3), checked_arith(BinOp::Div, 7, -2));
    assert_eq!(Ok(3), checked_arith(BinOp::Div, -7, -2));
    assert_eq!(Ok(42), checked_arith(BinOp::Times, -6, -7));
    let max = isize::MAX;
    let min = isize::MIN;
    assert_eq!(Err(RuntimeError::IntegerOverflow), eval(format!("{} + 1", max).as_str()));
    assert_eq!(Err(RuntimeError::IntegerUnderflow), eval(format!("{} - 1 - 1", min + 1).as_str()));
    assert_eq!(Err(RuntimeError::IntegerUnderflow), eval("4 / 0"));
    assert_eq!(Err(RuntimeError::IntegerUnderflow), eval("4 % 0"));
}

#[test]
fn arithmetic_failures_say_which_way_the_result_left_the_range() {
    let max = isize::MAX;
    let min = isize::MIN;
    assert_eq!(Err(RuntimeError::IntegerOverflow), checked_arith(BinOp::Plus, max, 1));
    assert_eq!(Err(RuntimeError::IntegerOverflow), checked_arith(BinOp::Plus, 1, max));
    assert_eq!(Err(RuntimeError::IntegerOverflow), checked_arith(BinOp::Plus, max, max));
    assert_eq!(Err(RuntimeError::IntegerUnderflow), checked_arith(BinOp::Plus, min, -1));
    assert_eq!(Err(RuntimeError::IntegerUnderflow), checked_arith(BinOp::Plus, -1, min));
    assert_eq!(Err(RuntimeError::IntegerUnderflow), checked_arith(BinOp::Plus, min, min));
    assert_eq!(Ok(-1), checked_arith(BinOp::Plus, max, min));
    assert_eq!(Err(RuntimeError::IntegerUnderflow), checked_arith(BinOp::Minus, min, 1));
    assert_eq!(Err(RuntimeError::IntegerUnderflow), checked_arith(BinOp::Minus, -2, max));
    assert_eq!(Err(RuntimeError::IntegerOverflow), checked_arith(BinOp::Minus, max, -1));
    assert_eq!(Err(RuntimeError::IntegerOverflow), checked_arith(BinOp::Minus, 0, min));
    assert_eq!(Ok(min), checked_arith(BinOp::Minus, -1, max));
    assert_eq!(Err(RuntimeError::IntegerOverflow), checked_arith(BinOp::Times, max, 2));
    assert_eq!(Err(RuntimeError::IntegerOverflow), checked_arith(BinOp::Times, min, -1));
    assert_eq!(Err(RuntimeError::IntegerOverflow), checked_arith(BinOp::Times, min, min));
    assert_eq!(Err(RuntimeError::IntegerUnderflow), checked_arith(BinOp::Times, min, 2));
    assert_eq!(Err(RuntimeError::IntegerUnderflow), checked_arith(BinOp::Times, 2, min));
    assert_eq!(Err(RuntimeError::IntegerUnderflow), checked_arith(BinOp::Times, max, -2));
    assert_eq!(Ok(min), checked_arith(BinOp::Times, min, 1));
    assert_eq!(Ok(0), checked_arith(BinOp::Times, min, 0));
    assert_eq!(Err(RuntimeError::IntegerUnderflow), checked_arith(BinOp::Div, min, -1));
    assert_eq!(Err(RuntimeError::IntegerUnderflow), eval(format!("-{} + -2", max).as_str()));
    assert_eq!(Err(RuntimeError::IntegerOverflow), eval(format!("{} - -1", max).as_str()));
    assert_eq!(Err(RuntimeError::IntegerUnderflow), eval(format!("-{} * 2", max).as_str()));
    assert_eq!(Err(RuntimeError::IntegerOverflow), eval(format!("-{} * -2", max).as_str()));
}

#[test]
fn negation_of_the_smallest_integer_overflows() {
    assert_eq!(Err(RuntimeError::IntegerOverflow), apply_unary(UnOp::Neg, Val::Int(isize::MIN)));
    assert_eq!(Ok(num(isize::MAX)), apply_unary(UnOp::Neg, Val::Int(isize::MIN + 1)));
    assert_eq!(Ok(num(-5)), apply_unary(UnOp::Neg, Val::Int(5)));
    assert_eq!(Ok(boolean(false)), apply_unary(UnOp::Not, Val::Bool(true)));
}

#[test]
fn equality_is_structural_and_crosses_kinds() {
    assert_eq!(Ok(boolean(false)), apply_binary(BinOp::Eq, Val::Int(1), Val::Bool(true)));
    assert_eq!(Ok(boolean(true)), apply_binary(BinOp::Ne, Val::Int(1), Val::Bool(true)));
    assert_eq!(Ok(boolean(true)), apply_binary(BinOp::Eq, Val::Undefined, Val::Undefined));
    assert_eq!(Ok(boolean(true)), eval("fn(a) { a + 1 } == fn(a) { a + 1 }"));
    assert_eq!(Ok(boolean(false)), eval("fn(a) { a + 1 } == fn(b) { b + 1 }"));
    assert_eq!(Ok(boolean(false)), eval("fn(a) { a + 1 } == fn(a) { a + 2 }"));
    assert_eq!(Ok(boolean(false)), eval("fn(a) { a } == 1"));
}

#[test]
fn comparisons_compare_integers() {
    assert_eq!(Ok(boolean(true)), apply_binary(BinOp::Lt, Val::Int(-1), Val::Int(0)));
    assert_eq!(Ok(boolean(false)), apply_binary(BinOp::Gt, Val::Int(-1), Val::Int(0)));
    assert_eq!(Ok(boolean(true)), apply_binary(BinOp::Leq, Val::Int(2), Val::Int(2)));
    assert_eq!(Ok(boolean(false)), apply_binary(BinOp::Geq, Val::Int(1), Val::Int(2)));
    assert_eq!(Ok(boolean(true)), apply_binary(BinOp::And, Val::Bool(true), Val::Bool(true)));
    assert_eq!(Ok(boolean(true)), apply_binary(BinOp::Or, Val::Bool(false), Val::Bool(true)));
}

#[test]
fn evaluation_gives_up_at_the_limit() {
    let mut interpreter = Interpreter::new();
    let forever = parse("while (true) { 0 }; 1").unwrap();
    assert_eq!(Err(RuntimeError::TooManyIterations(101)), interpreter.run_within(forever, 100));
    let mut interpreter = Interpreter::new();
    let three_steps = parse("1 + 2 + 3 + 4").unwrap();
    assert_eq!(
        Err(RuntimeError::TooManyIterations(3)),
        interpreter.run_within(three_steps.clone(), 2)
    );
    assert_eq!(Ok(num(10)), interpreter.run_within(three_steps, 3));
}

#[test]
fn a_loop_runs_its_body_before_it_looks_at_its_condition() {
    assert_eq!(Ok(num(21)), eval("var i = 20; while (i < 10) { i = i + 1 }; i"));
    assert_eq!(Ok(num(20)), eval("var i = 20; while (false) { i = i + 1 }; i"));
    assert_eq!(Ok(num(12)), eval("var i = 0; while (i < 10) { if (i % 2 == 0) { i = i + 1 } else { i = i + 3 } }; i"));
}

#[test]
fn declarations_bind_and_rebind() {
    assert_eq!(Ok(num(3)), eval("var x = 3; x"));
    assert_eq!(Ok(Expr::Val(Val::Undefined)), eval("var x = 3;"));
    assert_eq!(Ok(num(5)), eval("let x = 5; let x = 3; x + 2"));
    assert_eq!(Ok(num(9)), eval("let x = 5; var x = 3; x = 9; x"));
}

#[test]
fn assignment_to_a_constant_fails() {
    assert_eq!(
        Err(RuntimeError::InvalidConstAssignment(num(4), "x".to_string())),
        eval("let x = 3; x = 4")
    );
    assert_eq!(
        Err(RuntimeError::InvalidConstAssignment(num(1), "f".to_string())),
        eval("fn f() { 0 }; f = 1")
    );
}

#[test]
fn an_unbound_name_is_not_found() {
    assert_eq!(Err(RuntimeError::VariableNotFound("y".to_string())), eval("y"));
    assert_eq!(Err(RuntimeError::VariableNotFound("y".to_string())), eval("y = 1"));
    assert_eq!(Err(RuntimeError::VariableNotFound("z".to_string())), eval("fn f(a) { z }; f(1)"));
}

#[test]
fn functions_are_values() {
    assert_eq!(Ok(num(48)), eval("fn double(x) { x + x }; double(24)"));
    assert_eq!(Ok(num(7)), eval("fn twice(f, x) { f(f(x)) }; twice(fn(a) { a + 3 }, 1)"));
    assert_eq!(Ok(num(6)), eval("fn adder() { fn(a, b) { a + b } }; adder()(2, 4)"));
}

#[test]
fn arguments_and_parameters_are_paired_as_far_as_both_go() {
    assert_eq!(Ok(num(1)), eval("fn first(a, b) { a }; first(1)"));
    assert_eq!(Ok(num(1)), eval("fn first(a) { a }; first(1, 2, 3)"));
    assert_eq!(Err(RuntimeError::VariableNotFound("b".to_string())), eval("fn second(a, b) { b }; second(1)"));
}

#[test]
fn parameters_can_be_assigned_within_the_call() {
    assert_eq!(Ok(num(7)), eval("var x = 4; fn f(p) { p = 7; p }; f(x)"));
    assert_eq!(Ok(num(4)), eval("var x = 4; fn f(p) { p = 7; p }; f(x); x"));
}

#[test]
fn free_names_are_resolved_where_the_call_runs() {
    assert_eq!(Ok(num(11)), eval("fn get() { y }; fn run() { var y = 11; get() }; run()"));
    assert_eq!(Err(RuntimeError::VariableNotFound("y".to_string())), eval("fn get() { y }; get()"));
}

#[test]
fn a_parameter_that_is_no_variable_is_refused() {
    let mut interpreter = Interpreter::new();
    let function = Val::Func(None, Box::new(num(0)), vec![num(9)]);
    let call = Expr::FnCall(Box::new(Expr::Val(function)), vec![num(1)]);
    assert_eq!(
        Err(RuntimeError::InvalidTypeConversion("var".to_string(), num(9))),
        interpreter.step(call)
    );
}

#[test]
fn arguments_are_reduced_from_the_left() {
    let mut interpreter = Interpreter::new();
    let function = Expr::Val(Val::Func(None, Box::new(var("a")), vec![var("a"), var("b")]));
    let call = Expr::FnCall(
        Box::new(function.clone()),
        vec![num(1), bop(BinOp::Plus, num(1), num(1)), bop(BinOp::Plus, num(2), num(2))],
    );
    let term = interpreter.step(call).unwrap();
    assert_eq!(
        Expr::FnCall(Box::new(function.clone()), vec![num(1), num(2), bop(BinOp::Plus, num(2), num(2))]),
        term
    );
    let term = interpreter.step(term).unwrap();
    assert_eq!(Expr::FnCall(Box::new(function), vec![num(1), num(2), num(4)]), term);
}

#[test]
fn printing_collects_lines_and_yields_undefined() {
    let mut interpreter = Interpreter::new();
    let source = "var x = 555; print(x); print(-3); print(x > 1); print(fn() { 1 })";
    assert_eq!(Ok(Expr::Val(Val::Undefined)), interpreter.eval(source));
    assert_eq!(
        vec![
            "555".to_string(),
            "-3".to_string(),
            "true".to_string(),
            "cannot print this thing".to_string()
        ],
        interpreter.take_output()
    );
    assert!(interpreter.output.is_empty());
    assert_eq!(Ok(num(555)), interpreter.eval("x"));
}
