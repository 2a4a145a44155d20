//! Syntax trees: what the parser makes of a text.

use letpl::ast::{Expr, Param, Program};
use letpl::parser::parse;
use letpl::types::Type;

fn num(x: i64) -> Box<Expr> {
    Box::new(Expr::LiteralInt(x))
}

fn var(n: &str) -> Box<Expr> {
    Box::new(Expr::Name(n.to_string()))
}

fn expect_tree(src: &str, expected: Box<Expr>) {
    assert_eq!(parse(src), Ok(Program { expr: expected }));
}

fn expect_error(src: &str, expected: &str) {
    assert_eq!(parse(src), Err(expected.to_string()));
}

#[test]
fn parses_literals_and_names() {
    expect_tree("42", num(42));
    expect_tree("true", Box::new(Expr::LiteralBool(true)));
    expect_tree("false", Box::new(Expr::LiteralBool(false)));
    expect_tree("x", var("x"));
}

#[test]
fn parses_subtraction_and_negation() {
    expect_tree("-(1, 2)", Box::new(Expr::Subtract { left: num(1), right: num(2) }));
    expect_tree("-(1)", Box::new(Expr::Negate(num(1))));
    expect_tree(
        "-(-(1), -(2, 3))",
        Box::new(Expr::Subtract {
            left: Box::new(Expr::Negate(num(1))),
            right: Box::new(Expr::Subtract { left: num(2), right: num(3) }),
        }),
    );
}

#[test]
fn parses_zero_test() {
    expect_tree("zero?(x)", Box::new(Expr::IsZero(var("x"))));
}

#[test]
fn parses_conditionals() {
    expect_tree(
        "if a then b else c",
        Box::new(Expr::If { test: var("a"), consequent: var("b"), alternate: var("c") }),
    );
}

#[test]
fn parses_let() {
    expect_tree(
        "let x = 1 in x",
        Box::new(Expr::Let { name: "x".to_string(), expr: num(1), body: var("x") }),
    );
}

#[test]
fn parses_procedures_and_calls() {
    expect_tree(
        "(proc (x: int) x 1)",
        Box::new(Expr::Call {
            proc: Box::new(Expr::Proc {
                param: Param::new("x".to_string(), Type::new_int()),
                body: var("x"),
            }),
            arg: num(1),
        }),
    );
}

#[test]
fn parses_recursive_procedures() {
    expect_tree(
        "letrec bool f(g: (int -> (bool -> int))) true in f",
        Box::new(Expr::LetRec {
            t_result: Type::new_bool(),
            name: "f".to_string(),
            param: Param::new(
                "g".to_string(),
                Type::new_proc(
                    Type::new_int(),
                    Type::new_proc(Type::new_bool(), Type::new_int()),
                ),
            ),
            proc_body: Box::new(Expr::LiteralBool(true)),
            let_body: var("f"),
        }),
    );
}

#[test]
fn parses_assert_with_the_line_of_the_keyword() {
    expect_tree(
        "\n\nassert true\nthen 1",
        Box::new(Expr::Assert { line: 3, test: Box::new(Expr::LiteralBool(true)), body: num(1) }),
    );
}

#[test]
fn reports_what_was_expected() {
    expect_error("-(1 2)", "expected `,` but got `number`");
    expect_error("- 1", "expected `(` but got `number`");
    expect_error("if 1 else 2", "expected `then` but got `else`");
    expect_error("if 1 then 2", "expected `else` but got `EOF`");
    expect_error("let x 1 in x", "expected `=` but got `number`");
    expect_error("let x = 1 x", "expected `in` but got `identifier(x)`");
    expect_error("proc x: int) x", "expected `(` but got `identifier(x)`");
    expect_error("proc (x int) x", "expected `:` but got `int`");
    expect_error("letrec (int > int) f(x: int) x in f", "unexpected character '>'");
    expect_error("letrec (int int) f(x: int) x in f", "expected `->` but got `int`");
    expect_error("(f x", "expected `)` but got `EOF`");
    expect_error("x y", "expected `EOF` but got `identifier(y)`");
}

#[test]
fn reports_missing_identifiers() {
    expect_error("let = 1 in 2", "expected identifier but found =");
    expect_error("proc (: int) 1", "expected identifier but found :");
    expect_error("letrec int (x: int) x in 1", "expected identifier but found (");
}

#[test]
fn reports_tokens_that_begin_nothing() {
    expect_error("", "unexpected token `EOF`");
    expect_error(")", "unexpected token `)`");
    expect_error("-(else)", "unexpected token `else`");
    expect_error("proc (x: x) x", "unexpected token `identifier(x)`");
}

#[test]
fn reports_the_first_error_in_the_text() {
    expect_error("-(1, ) $", "unexpected token `)`");
    expect_error("-(1 $ 2)", "unexpected character '$'");
}

#[test]
fn a_program_weighs_no_more_than_its_text() {
    let src = "let f = proc (x: int) -(x, 1) in (f 2)";
    let program = parse(src).expect("a program");
    // One for each of the eight nodes, and one more for the procedure.
    assert!(program.expr.weight_within(9));
    assert!(!program.expr.weight_within(8));
    assert!(program.expr.weight_within(src.len()));
}

#[test]
fn a_recursive_procedure_weighs_one_more_than_its_nodes() {
    let program = parse("letrec int f(n: int) n in 1").expect("a program");
    assert!(program.expr.weight_within(4));
    assert!(!program.expr.weight_within(3));
    assert!(!program.expr.weight_within(0));
}
