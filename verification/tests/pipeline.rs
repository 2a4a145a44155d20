//! Programs taken through the whole pipeline, from source text to value.

use letpl::eval::{eval, report};
use letpl::runtime::Value;

fn expect_int(src: &str, expected: i64) {
    match eval(src) {
        Ok((Value::Integer(x), t)) => {
            assert_eq!(x, expected);
            assert!(t.is_int());
        }
        Ok((other, _)) => panic!("expected an integer, got {}", other.to_string()),
        Err(message) => panic!("expected an integer, got the error {}", message),
    }
}

fn expect_error(src: &str, expected: &str) {
    match eval(src) {
        Err(message) => assert_eq!(message, expected),
        Ok((value, _)) => panic!("expected a failure, got {}", value.to_string()),
    }
}

#[test]
fn subtracts() {
    expect_int("-(10, 3)", 7);
}

#[test]
fn takes_the_consequent_when_the_test_holds() {
    expect_int("if zero?(-(5,5)) then 1 else 2", 1);
}

#[test]
fn takes_the_alternate_when_the_test_fails() {
    expect_int("if zero?(-(5,4)) then 1 else 2", 2);
}

#[test]
fn nested_lets_see_outer_bindings() {
    expect_int("let x = 4 in let y = -(x, 1) in -(y, x)", -1);
}

#[test]
fn recursive_sum() {
    expect_int(
        "letrec int sum(n: int) if zero?(n) then 0 else -(n, -(0, (sum -(n,1)))) in (sum 5)",
        15,
    );
}

#[test]
fn recursive_factorial_shape() {
    // fact(4) by the shape of the double negations: n - (n - fact(n - 1))
    // is fact(n - 1), so the result is the base case.
    expect_int(
        "letrec int fact(n: int) if zero?(n) then 1 else -(0, -(0, -(n, -(n, (fact -(n,1)))))) \
         in (fact 4)",
        1,
    );
}

#[test]
fn closure_captures_its_argument() {
    expect_int("let mk = proc (x: int) proc (y: int) -(x, y) in ((mk 10) 3)", 7);
}

#[test]
fn tail_recursion_runs_a_million_calls() {
    expect_int(
        "letrec int loop(n: int) if zero?(n) then 0 else (loop -(n, 1)) in (loop 1000000)",
        0,
    );
}

#[test]
fn assert_passes_when_the_test_holds() {
    expect_int("assert zero?(-(3, 3)) then 42", 42);
}

#[test]
fn assert_fails_with_its_line() {
    expect_error("assert zero?(-(3, 4)) then 42", "Assert at line 1");
}

#[test]
fn assert_reports_the_line_of_the_keyword() {
    expect_error("# a comment\n\nassert\n  zero?(1)\nthen 42", "Assert at line 3");
}

#[test]
fn negation() {
    expect_int("-(5)", -5);
    expect_int("-(-(5))", 5);
}

#[test]
fn subtraction_wraps_around() {
    // 9223372036854775807 - (-1) does not fit and wraps to the least integer.
    match eval("zero?(-(-(9223372036854775807, -(1)), -(-(0, 9223372036854775807), 1)))") {
        Ok((Value::Boolean(b), t)) => {
            assert!(b);
            assert!(t.is_bool());
        }
        other => panic!("unexpected {:?}", other.map(|(v, _)| v.to_string())),
    }
}

#[test]
fn booleans_evaluate_to_themselves() {
    match eval("true") {
        Ok((Value::Boolean(true), t)) => assert!(t.is_bool()),
        other => panic!("unexpected {:?}", other.map(|(v, _)| v.to_string())),
    }
    match eval("if false then true else false") {
        Ok((Value::Boolean(false), t)) => assert!(t.is_bool()),
        other => panic!("unexpected {:?}", other.map(|(v, _)| v.to_string())),
    }
}

#[test]
fn a_procedure_is_a_value() {
    match eval("proc (x: int) x") {
        Ok((value, t)) => {
            assert_eq!(value.to_string(), "<proc @1>");
            assert_eq!(t.to_string(), "(int -> int)");
        }
        Err(message) => panic!("unexpected error {}", message),
    }
}

#[test]
fn undefined_name_is_a_type_error_first() {
    expect_error("-(1, y)", "undefined name `y`");
}

#[test]
fn type_errors_are_reported() {
    expect_error("-(true, 1)", "-() first argument expects `int` but got `bool`");
    expect_error("-(1, false)", "-() second argument expects `int` but got `bool`");
    expect_error("-(true)", "-() argument expects `int` but got `bool`");
    expect_error("zero?(true)", "`zero?` expects `int` but got `bool`");
    expect_error("if 1 then 2 else 3", "`if` test expects `bool` but got `int`");
    expect_error(
        "if true then 2 else false",
        "`if` branches expect matching types but got `int` and `bool`",
    );
    expect_error("assert 1 then 2", "assert guard must be type `bool` but got `int`");
    expect_error("(1 2)", "call expects proc but got `int`");
    expect_error(
        "(proc (x: int) x true)",
        "call expect `int` argument but got `bool`",
    );
    expect_error(
        "letrec bool f(x: int) x in 1",
        "`f` expect result of type `bool` but got `int`.",
    );
}

#[test]
fn syntax_errors_are_reported() {
    expect_error("-(1, 2", "expected `)` but got `EOF`");
    expect_error("let 1 = 2 in 3", "expected identifier but found number");
    expect_error("then", "unexpected token `then`");
    expect_error("1 2", "expected `EOF` but got `number`");
    expect_error("proc (x: 1) x", "unexpected token `number`");
    expect_error("1 $", "unexpected character '$'");
    expect_error(
        "99999999999999999999",
        "'99999999999999999999' cannot be converted to a number",
    );
}

#[test]
fn comments_and_whitespace_are_skipped() {
    expect_int("# leading comment\n  -( 10 ,\t3 ) # trailing comment", 7);
}

#[test]
fn higher_order_procedures() {
    expect_int(
        "let twice = proc (f: (int -> int)) proc (x: int) (f (f x)) in \
         ((twice proc (y: int) -(y, 1)) 10)",
        8,
    );
}

#[test]
fn captures_reach_through_two_procedures() {
    expect_int(
        "let a = 100 in (proc (x: int) ((proc (y: int) proc (z: int) -(-(x, y), -(z, a)) 2) 3) 10)",
        105,
    );
}

#[test]
fn a_well_typed_program_can_read_a_slot_of_the_wrong_type() {
    // The branches of the conditional leave the stack at different heights,
    // and the slot that is taken for `y` holds `x` when the alternate ran.
    expect_error(
        "let y = if zero?(1) then 2 else let x = true in 5 in -(y, 1)",
        "value is not an integer",
    );
}

#[test]
fn report_shows_the_value_and_its_type() {
    let result = eval("-(10, 3)");
    assert_eq!(report(&result), Ok(String::from("7\nint\n")));
}

#[test]
fn report_shows_the_error() {
    let result = eval("-(3, 4");
    assert_eq!(report(&result), Err(String::from("error: expected `)` but got `EOF`\n")));
}
