//! Nameless trees: what the resolver makes of names.

use letpl::ast::nameless::{Capture, CaptureOffset, Expr, Program, StackOffset};
use letpl::name_analysis::resolve_names;
use letpl::parser::parse;

fn resolved(src: &str) -> Result<Program, String> {
    let program = parse(src).expect("a program");
    resolve_names(&program)
}

fn num(x: i64) -> Box<Expr> {
    Box::new(Expr::LiteralInt(x))
}

fn local(k: usize) -> Box<Expr> {
    Box::new(Expr::Local(StackOffset(k)))
}

fn global(k: usize) -> Box<Expr> {
    Box::new(Expr::Global(StackOffset(k)))
}

fn captured(k: usize) -> Box<Expr> {
    Box::new(Expr::Capture(CaptureOffset(k)))
}

fn expect_tree(src: &str, expected: Box<Expr>) {
    assert_eq!(resolved(src), Ok(Program { expr: expected }));
}

#[test]
fn literals_stay_as_they_are() {
    expect_tree("1", num(1));
    expect_tree("true", Box::new(Expr::LiteralBool(true)));
    expect_tree("-(1)", Box::new(Expr::Negate(num(1))));
    expect_tree("zero?(1)", Box::new(Expr::IsZero(num(1))));
}

#[test]
fn a_let_outside_procedures_binds_a_global() {
    expect_tree("let x = 4 in x", Box::new(Expr::Let { expr: num(4), body: global(0) }));
}

#[test]
fn nested_lets_take_the_next_slots() {
    // let x = 4 in let y = -(x, 1) in -(y, x)
    expect_tree(
        "let x = 4 in let y = -(x, 1) in -(y, x)",
        Box::new(Expr::Let {
            expr: num(4),
            body: Box::new(Expr::Let {
                expr: Box::new(Expr::Subtract { left: global(0), right: num(1) }),
                body: Box::new(Expr::Subtract { left: global(1), right: global(0) }),
            }),
        }),
    );
}

#[test]
fn a_let_after_an_operand_lies_above_it() {
    // The 7 occupies slot 0 while the let is evaluated.
    expect_tree(
        "-(7, let x = 1 in x)",
        Box::new(Expr::Subtract {
            left: num(7),
            right: Box::new(Expr::Let { expr: num(1), body: global(1) }),
        }),
    );
}

#[test]
fn the_inner_binding_shadows_the_outer() {
    expect_tree(
        "let x = 1 in let x = 2 in x",
        Box::new(Expr::Let {
            expr: num(1),
            body: Box::new(Expr::Let { expr: num(2), body: global(1) }),
        }),
    );
}

#[test]
fn a_binding_ends_with_its_body() {
    assert_eq!(resolved("-(let x = 1 in x, x)"), Err(String::from("undefined name \"x\"")));
}

#[test]
fn a_parameter_is_slot_one_of_its_frame() {
    expect_tree(
        "proc (x: int) x",
        Box::new(Expr::Proc { body: local(1), captures: vec![] }),
    );
}

#[test]
fn a_let_in_a_procedure_binds_a_local() {
    expect_tree(
        "proc (x: int) let y = x in -(y, x)",
        Box::new(Expr::Proc {
            body: Box::new(Expr::Let {
                expr: local(1),
                body: Box::new(Expr::Subtract { left: local(2), right: local(1) }),
            }),
            captures: vec![],
        }),
    );
}

#[test]
fn globals_are_not_captured() {
    expect_tree(
        "let a = 1 in proc (x: int) -(x, a)",
        Box::new(Expr::Let {
            expr: num(1),
            body: Box::new(Expr::Proc {
                body: Box::new(Expr::Subtract { left: local(1), right: global(0) }),
                captures: vec![],
            }),
        }),
    );
}

#[test]
fn a_local_of_the_enclosing_procedure_is_captured_from_its_frame() {
    expect_tree(
        "proc (x: int) proc (y: int) -(x, y)",
        Box::new(Expr::Proc {
            body: Box::new(Expr::Proc {
                body: Box::new(Expr::Subtract { left: captured(0), right: local(1) }),
                captures: vec![Capture::Local(StackOffset(1))],
            }),
            captures: vec![],
        }),
    );
}

#[test]
fn a_local_is_captured_anew_at_each_reference() {
    expect_tree(
        "proc (x: int) proc (y: int) -(x, x)",
        Box::new(Expr::Proc {
            body: Box::new(Expr::Proc {
                body: Box::new(Expr::Subtract { left: captured(0), right: captured(1) }),
                captures: vec![Capture::Local(StackOffset(1)), Capture::Local(StackOffset(1))],
            }),
            captures: vec![],
        }),
    );
}

#[test]
fn a_capture_reaches_through_the_procedures_between() {
    // z's procedure takes x from the captures of y's procedure, which takes
    // it from the frame of x's procedure. The second reference finds the
    // capture of the middle procedure again.
    expect_tree(
        "proc (x: int) proc (y: int) proc (z: int) -(x, x)",
        Box::new(Expr::Proc {
            body: Box::new(Expr::Proc {
                body: Box::new(Expr::Proc {
                    body: Box::new(Expr::Subtract { left: captured(0), right: captured(0) }),
                    captures: vec![Capture::Capture(CaptureOffset(0))],
                }),
                captures: vec![Capture::Local(StackOffset(1))],
            }),
            captures: vec![],
        }),
    );
}

#[test]
fn a_recursive_procedure_finds_itself_in_slot_zero() {
    expect_tree(
        "letrec int f(n: int) (f n) in (f 1)",
        Box::new(Expr::Let {
            expr: Box::new(Expr::Proc {
                body: Box::new(Expr::Call { proc: local(0), arg: local(1) }),
                captures: vec![],
            }),
            body: Box::new(Expr::Call { proc: global(0), arg: num(1) }),
        }),
    );
}

#[test]
fn an_anonymous_procedure_has_no_name_for_itself() {
    assert_eq!(resolved("proc (x: int) (f x)"), Err(String::from("undefined name \"f\"")));
}

#[test]
fn both_branches_start_at_the_same_height() {
    expect_tree(
        "if true then let x = 1 in x else let y = 2 in y",
        Box::new(Expr::If {
            test: Box::new(Expr::LiteralBool(true)),
            consequent: Box::new(Expr::Let { expr: num(1), body: global(0) }),
            alternate: Box::new(Expr::Let { expr: num(2), body: global(0) }),
        }),
    );
}

#[test]
fn exchanged_branches_resolve_to_exchanged_trees() {
    let one = resolved("if zero?(0) then let x = 1 in x else -(2, 3)").expect("resolved");
    let two = resolved("if zero?(0) then -(2, 3) else let x = 1 in x").expect("resolved");
    match (*one.expr, *two.expr) {
        (
            Expr::If { test: t1, consequent: c1, alternate: a1 },
            Expr::If { test: t2, consequent: c2, alternate: a2 },
        ) => {
            assert_eq!(t1, t2);
            assert_eq!(c1, a2);
            assert_eq!(a1, c2);
        }
        _ => panic!("expected two conditionals"),
    }
}

#[test]
fn assert_keeps_its_line() {
    expect_tree(
        "assert true then 1",
        Box::new(Expr::Assert { line: 1, test: Box::new(Expr::LiteralBool(true)), body: num(1) }),
    );
}

#[test]
fn the_first_undefined_name_is_reported() {
    assert_eq!(resolved("-(a, b)"), Err(String::from("undefined name \"a\"")));
    assert_eq!(resolved("(f x)"), Err(String::from("undefined name \"f\"")));
    // The alternate is resolved before the consequent.
    assert_eq!(resolved("if true then a else b"), Err(String::from("undefined name \"b\"")));
    assert_eq!(resolved("let x = y in x"), Err(String::from("undefined name \"y\"")));
}
