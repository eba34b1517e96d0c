use boxx::expr::{BinOp, Dec, Expr, UnOp, Val};
use boxx::parser::parser::{parse, Parser};
use boxx::parser::parser_error::ParserError;

fn num(n: isize) -> Expr {
    Expr::Val(Val::Int(n))
}

fn var(name: &str) -> Expr {
    Expr::Var(name.to_string())
}

fn undefined() -> Expr {
    Expr::Val(Val::Undefined)
}

fn bop(op: BinOp, a: Expr, b: Expr) -> Expr {
    Expr::Bop(op, Box::new(a), Box::new(b))
}

fn ternary(c: Expr, t: Expr, f: Expr) -> Expr {
    Expr::Ternary(Box::new(c), Box::new(t), Box::new(f))
}

#[test]
fn parses_literals_and_names() {
    assert_eq!(Ok(num(42)), parse("42"));
    assert_eq!(Ok(Expr::Val(Val::Bool(true))), parse("true"));
    assert_eq!(Ok(Expr::Val(Val::Bool(false))), parse("false"));
    assert_eq!(Ok(var("underscore_name")), parse("underscore_name"));
    assert_eq!(Ok(Expr::Uop(UnOp::Neg, Box::new(num(7)))), parse("-7"));
    assert_eq!(
        Ok(Expr::Uop(UnOp::Not, Box::new(Expr::Uop(UnOp::Not, Box::new(var("a")))))),
        parse("!!a")
    );
}

#[test]
fn binary_operators_bind_by_level_and_to_the_left() {
    assert_eq!(
        Ok(bop(BinOp::Plus, num(1), bop(BinOp::Times, num(2), num(3)))),
        parse("1 + 2 * 3")
    );
    assert_eq!(
        Ok(bop(BinOp::Minus, bop(BinOp::Minus, num(1), num(2)), num(3))),
        parse("1 - 2 - 3")
    );
    assert_eq!(
        Ok(bop(BinOp::Mod, bop(BinOp::Div, num(8), num(4)), num(3))),
        parse("8 / 4 % 3")
    );
    assert_eq!(
        Ok(bop(
            BinOp::Or,
            var("a"),
            bop(BinOp::And, var("b"), bop(BinOp::Eq, var("c"), bop(BinOp::Lt, var("d"), var("e"))))
        )),
        parse("a || b && c == d < e")
    );
    assert_eq!(
        Ok(bop(BinOp::Ne, bop(BinOp::Geq, num(1), num(2)), bop(BinOp::Leq, num(3), num(4)))),
        parse("1 >= 2 != 3 <= 4")
    );
    assert_eq!(
        Ok(bop(BinOp::Gt, bop(BinOp::Plus, num(1), num(2)), num(3))),
        parse("1 + 2 > 3")
    );
    assert_eq!(
        Ok(bop(BinOp::Times, bop(BinOp::Plus, num(1), num(2)), num(3))),
        parse("(1 + 2) * 3")
    );
}

#[test]
fn assignment_and_conditional_bind_to_the_right() {
    assert_eq!(
        Ok(bop(BinOp::Assign, var("a"), bop(BinOp::Assign, var("b"), num(1)))),
        parse("a = b = 1")
    );
    assert_eq!(
        Ok(ternary(var("a"), num(1), ternary(var("b"), num(2), num(3)))),
        parse("a ? 1 : b ? 2 : 3")
    );
    assert_eq!(
        Ok(bop(BinOp::Assign, var("x"), ternary(var("a"), num(1), num(2)))),
        parse("x = a ? 1 : 2")
    );
    assert_eq!(
        Ok(ternary(var("a"), bop(BinOp::Sequence, num(1), num(2)), num(3))),
        parse("a ? 1; 2 : 3")
    );
}

#[test]
fn sequences_end_with_what_follows_the_last_semicolon() {
    assert_eq!(Ok(bop(BinOp::Sequence, num(3), num(5))), parse("3;5"));
    assert_eq!(Ok(bop(BinOp::Sequence, num(3), undefined())), parse("3;"));
    assert_eq!(
        Ok(bop(BinOp::Sequence, num(1), bop(BinOp::Sequence, num(2), num(3)))),
        parse("1; 2; 3")
    );
}

#[test]
fn parses_declarations() {
    assert_eq!(
        Ok(Expr::Decl(Dec::DConst, Box::new(var("x")), Box::new(num(1)), Box::new(var("x")))),
        parse("let x = 1; x")
    );
    assert_eq!(
        Ok(Expr::Decl(Dec::DVar, Box::new(var("x")), Box::new(num(1)), Box::new(undefined()))),
        parse("var x = 1;")
    );
    assert_eq!(
        Ok(Expr::Decl(Dec::DVar, Box::new(var("x")), Box::new(num(1)), Box::new(undefined()))),
        parse("var x = 1")
    );
    let double = Val::Func(
        Some(Box::new(var("double"))),
        Box::new(bop(BinOp::Plus, var("x"), var("x"))),
        vec![var("x")],
    );
    assert_eq!(
        Ok(Expr::Decl(
            Dec::DConst,
            Box::new(var("double")),
            Box::new(Expr::Val(double)),
            Box::new(Expr::FnCall(Box::new(var("double")), vec![num(24)]))
        )),
        parse("fn double(x) { x + x }; double(24)")
    );
}

#[test]
fn parses_function_literals_and_calls() {
    let literal = Expr::Val(Val::Func(None, Box::new(num(4)), vec![var("a"), var("b")]));
    assert_eq!(Ok(literal.clone()), parse("fn(a, b) { 4 }"));
    assert_eq!(
        Ok(Expr::FnCall(Box::new(literal), vec![num(1), bop(BinOp::Plus, num(2), num(3))])),
        parse("fn(a, b) { 4 }(1, 2 + 3)")
    );
    assert_eq!(
        Ok(Expr::FnCall(Box::new(Expr::FnCall(Box::new(var("f")), vec![])), vec![var("x")])),
        parse("f()(x)")
    );
    assert_eq!(Ok(Expr::Val(Val::Func(None, Box::new(undefined()), vec![]))), parse("fn() {}"));
}

#[test]
fn parses_conditionals_loops_and_prints() {
    assert_eq!(Ok(ternary(var("c"), num(1), num(2))), parse("if (c) { 1 } else { 2 }"));
    assert_eq!(Ok(ternary(var("c"), num(1), undefined())), parse("if (c) { 1 }"));
    assert_eq!(
        Ok(ternary(var("a"), num(1), ternary(var("b"), num(2), num(3)))),
        parse("if (a) { 1 } else if (b) { 2 } else { 3 }")
    );
    assert_eq!(
        Ok(Expr::While(
            Box::new(var("c")),
            Box::new(var("c")),
            Box::new(var("b")),
            Box::new(var("b")),
            Box::new(var("r"))
        )),
        parse("while (c) { b }; r")
    );
    assert_eq!(Ok(Expr::Print(Box::new(bop(BinOp::Plus, num(1), num(2))))), parse("print(1 + 2)"));
}

#[test]
fn what_follows_the_term_is_not_looked_at() {
    assert_eq!(Ok(bop(BinOp::Minus, bop(BinOp::Plus, num(4), num(7)), num(3))), parse("(4+7)-3\x29"));
    assert_eq!(Ok(num(1)), parse("1 2 3"));
    assert_eq!(Ok(num(1)), parse("1 @"));
    assert_eq!(Ok(num(1)), parse("1 }"));
}

#[test]
fn parser_reports_where_it_stopped() {
    assert_eq!(Err(ParserError::UnexpectedEnd(0)), parse(""));
    assert_eq!(Err(ParserError::UnexpectedEnd(0)), parse("  // nothing\n"));
    assert_eq!(Err(ParserError::UnexpectedEnd(2)), parse("1 +"));
    assert_eq!(Err(ParserError::UnexpectedEnd(4)), parse("(1 + 2"));
    assert_eq!(Err(ParserError::UnexpectedToken(0)), parse("* 2"));
    assert_eq!(Err(ParserError::UnexpectedToken(2)), parse("1 + * 2"));
    assert_eq!(Err(ParserError::UnexpectedToken(1)), parse("let 1 = 2"));
    assert_eq!(Err(ParserError::UnexpectedToken(2)), parse("let x 2"));
    assert_eq!(Err(ParserError::UnexpectedToken(3)), parse("a ? 1 2"));
    assert_eq!(Err(ParserError::UnexpectedToken(3)), parse("f(1 2)"));
    assert_eq!(Err(ParserError::UnexpectedToken(2)), parse("fn(1) { 2 }"));
    assert_eq!(Err(ParserError::UnexpectedToken(1)), parse("while c { 1 }"));
    assert_eq!(Err(ParserError::InvalidCharacter(0)), parse("@"));
    assert_eq!(Err(ParserError::InvalidCharacter(2)), parse("1 + #"));
    assert_eq!(Err(ParserError::InvalidCharacter(2)), parse("1; @"));
    assert_eq!(Err(ParserError::IntegerTooLarge(0)), parse("99999999999999999999999999"));
    assert_eq!(Err(ParserError::IntegerTooLarge(2)), parse("1 - 99999999999999999999999999"));
}

#[test]
fn a_parser_keeps_its_place() {
    let mut parser = Parser::new("1 + 2 3 * 4 }".to_string());
    assert_eq!(Ok(bop(BinOp::Plus, num(1), num(2))), parser.expr());
    assert_eq!(Ok(bop(BinOp::Times, num(3), num(4))), parser.expr());
    assert_eq!(Err(ParserError::UnexpectedToken(6)), parser.expr());
    assert_eq!(Err(ParserError::UnexpectedToken(6)), parser.expr());
}
