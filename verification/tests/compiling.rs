//! Bytecode: what the compiler emits.

use letpl::ast::nameless::{Capture, CaptureOffset, Expr, Program, StackOffset};
use letpl::compiler::{compile, Chunk};
use letpl::name_analysis::resolve_names;
use letpl::parser::parse;
use letpl::runtime::{Address, Op, Value};

fn compiled(src: &str) -> Vec<Op> {
    let program = parse(src).expect("a program");
    let nameless = resolve_names(&program).expect("resolved");
    compile(&nameless).expect("compiled")
}

fn push(x: i64) -> Op {
    Op::PushValue(Value::Integer(x))
}

fn truth(b: bool) -> Op {
    Op::PushValue(Value::Boolean(b))
}

#[test]
fn literals_are_pushed() {
    assert_eq!(compiled("7"), vec![push(7)]);
    assert_eq!(compiled("true"), vec![truth(true)]);
}

#[test]
fn operands_come_first_left_to_right() {
    assert_eq!(compiled("-(10, 3)"), vec![push(10), push(3), Op::Diff]);
    assert_eq!(compiled("-(1)"), vec![push(1), Op::Negate]);
    assert_eq!(compiled("zero?(1)"), vec![push(1), Op::IsZero]);
}

#[test]
fn names_compile_to_the_three_kinds_of_push() {
    let program = Program {
        expr: Box::new(Expr::Subtract {
            left: Box::new(Expr::Local(StackOffset(2))),
            right: Box::new(Expr::Subtract {
                left: Box::new(Expr::Capture(CaptureOffset(1))),
                right: Box::new(Expr::Global(StackOffset(0))),
            }),
        }),
    };
    assert_eq!(
        compile(&program),
        Ok(vec![
            Op::PushLocal(StackOffset(2)),
            Op::PushCapture(CaptureOffset(1)),
            Op::PushGlobal(StackOffset(0)),
            Op::Diff,
            Op::Diff,
        ])
    );
}

#[test]
fn a_conditional_jumps_over_its_branches() {
    assert_eq!(
        compiled("if zero?(0) then 1 else 2"),
        vec![
            push(0),
            Op::IsZero,
            Op::JumpTrue(Address(5)),
            push(2),
            Op::Jump(Address(6)),
            push(1),
        ]
    );
}

#[test]
fn a_jump_to_the_end_is_followed_by_what_comes_next() {
    assert_eq!(
        compiled("-(if true then 1 else 2, 3)"),
        vec![
            truth(true),
            Op::JumpTrue(Address(4)),
            push(2),
            Op::Jump(Address(5)),
            push(1),
            push(3),
            Op::Diff,
        ]
    );
}

#[test]
fn exchanged_branches_exchange_their_code() {
    assert_eq!(
        compiled("if true then -(1, 2) else 3"),
        vec![
            truth(true),
            Op::JumpTrue(Address(4)),
            push(3),
            Op::Jump(Address(7)),
            push(1),
            push(2),
            Op::Diff,
        ]
    );
    assert_eq!(
        compiled("if true then 3 else -(1, 2)"),
        vec![
            truth(true),
            Op::JumpTrue(Address(6)),
            push(1),
            push(2),
            Op::Diff,
            Op::Jump(Address(7)),
            push(3),
        ]
    );
}

#[test]
fn exchanged_branches_move_the_jumps_inside_them() {
    assert_eq!(
        compiled("if true then if false then 1 else 2 else 3"),
        vec![
            truth(true),
            Op::JumpTrue(Address(4)),
            push(3),
            Op::Jump(Address(9)),
            truth(false),
            Op::JumpTrue(Address(8)),
            push(2),
            Op::Jump(Address(9)),
            push(1),
        ]
    );
    assert_eq!(
        compiled("if true then 3 else if false then 1 else 2"),
        vec![
            truth(true),
            Op::JumpTrue(Address(8)),
            truth(false),
            Op::JumpTrue(Address(6)),
            push(2),
            Op::Jump(Address(7)),
            push(1),
            Op::Jump(Address(9)),
            push(3),
        ]
    );
}

#[test]
fn a_let_is_its_expression_and_then_its_body() {
    assert_eq!(compiled("let x = 4 in x"), vec![push(4), Op::PushGlobal(StackOffset(0))]);
}

#[test]
fn an_assert_checks_before_its_body() {
    assert_eq!(
        compiled("assert true then 1"),
        vec![truth(true), Op::Assert { line: 1 }, push(1)]
    );
}

#[test]
fn a_procedure_is_jumped_over_and_then_made() {
    assert_eq!(
        compiled("proc (x: int) x"),
        vec![
            Op::Jump(Address(3)),
            Op::PushLocal(StackOffset(1)),
            Op::Return,
            Op::MakeProc(Address(1), vec![]),
        ]
    );
}

#[test]
fn a_procedure_carries_its_captures() {
    assert_eq!(
        compiled("proc (x: int) proc (y: int) -(x, y)"),
        vec![
            Op::Jump(Address(8)),
            Op::Jump(Address(6)),
            Op::PushCapture(CaptureOffset(0)),
            Op::PushLocal(StackOffset(1)),
            Op::Diff,
            Op::Return,
            Op::MakeProc(Address(2), vec![Capture::Local(StackOffset(1))]),
            Op::Return,
            Op::MakeProc(Address(1), vec![]),
        ]
    );
}

#[test]
fn a_call_outside_procedures_is_a_plain_call() {
    assert_eq!(
        compiled("(proc (x: int) x 1)"),
        vec![
            Op::Jump(Address(3)),
            Op::PushLocal(StackOffset(1)),
            Op::Return,
            Op::MakeProc(Address(1), vec![]),
            push(1),
            Op::Call,
        ]
    );
}

#[test]
fn the_last_call_of_a_procedure_is_a_tail_call() {
    assert_eq!(
        compiled("proc (f: (int -> int)) (f 1)"),
        vec![
            Op::Jump(Address(5)),
            Op::PushLocal(StackOffset(1)),
            push(1),
            Op::TailCall,
            Op::Return,
            Op::MakeProc(Address(1), vec![]),
        ]
    );
}

#[test]
fn tail_position_passes_through_branches_lets_and_asserts() {
    let ops = compiled(
        "proc (f: (int -> int)) if true then let x = 1 in (f x) else assert true then (f 2)",
    );
    let tail_calls = ops.iter().filter(|op| **op == Op::TailCall).count();
    let calls = ops.iter().filter(|op| **op == Op::Call).count();
    assert_eq!(tail_calls, 2);
    assert_eq!(calls, 0);
}

#[test]
fn a_call_whose_value_is_used_is_no_tail_call() {
    // The operands of a subtraction, of a call, of a test and of a let are
    // used by what follows them.
    let ops = compiled(
        "proc (f: (int -> int)) -((f 1), let x = (f 2) in if zero?((f 3)) then (f (f 4)) else x)",
    );
    let tail_calls = ops.iter().filter(|op| **op == Op::TailCall).count();
    let calls = ops.iter().filter(|op| **op == Op::Call).count();
    assert_eq!(tail_calls, 0);
    assert_eq!(calls, 5);
}

#[test]
fn a_call_in_a_let_that_is_an_operand_is_no_tail_call() {
    let ops = compiled("proc (f: (int -> int)) -(let x = 1 in (f x), 2)");
    assert!(!ops.contains(&Op::TailCall));
    assert!(ops.contains(&Op::Call));
}

#[test]
fn every_jump_leads_into_the_program_or_to_its_end() {
    let sources = [
        "if zero?(0) then 1 else 2",
        "let f = proc (x: int) if zero?(x) then 1 else 2 in (f 3)",
        "letrec int f(n: int) if zero?(n) then 0 else (f -(n, 1)) in if true then (f 1) else 2",
        "-(if true then 1 else 2, if false then 3 else 4)",
    ];
    for src in sources {
        let ops = compiled(src);
        for op in &ops {
            match op {
                Op::Jump(Address(target)) | Op::JumpTrue(Address(target)) => {
                    assert!(*target <= ops.len());
                    assert!(*target > 0);
                }
                Op::MakeProc(Address(start), _) => assert!(*start < ops.len()),
                _ => {}
            }
        }
    }
}

#[test]
fn no_jump_leads_to_the_end_unless_the_program_ends_with_a_branch() {
    let ops = compiled("-(if true then 1 else 2, 3)");
    for op in &ops {
        if let Op::Jump(Address(target)) | Op::JumpTrue(Address(target)) = op {
            assert!(*target < ops.len());
        }
    }
    let ops = compiled("let x = 1 in if true then 1 else 2");
    assert!(ops.contains(&Op::Jump(Address(ops.len()))));
}

#[test]
fn chunk_emit_gives_addresses_in_order() {
    let mut chunk = Chunk::new();
    assert_eq!(chunk.next_address(), Address(0));
    assert_eq!(chunk.emit(Op::Diff), Address(0));
    assert_eq!(chunk.emit(Op::Jump(Address(0))), Address(1));
    assert_eq!(chunk.next_address(), Address(2));
    assert_eq!(chunk.ops, vec![Op::Diff, Op::Jump(Address(0))]);
}

#[test]
fn chunk_patch_changes_only_jumps() {
    let mut chunk = Chunk::new();
    chunk.emit(Op::Jump(Address(0)));
    chunk.emit(Op::JumpTrue(Address(0)));
    chunk.emit(Op::MakeProc(Address(0), vec![]));
    chunk.emit(Op::Diff);
    chunk.patch(Address(0), Address(7));
    chunk.patch(Address(1), Address(8));
    chunk.patch(Address(2), Address(9));
    chunk.patch(Address(3), Address(9));
    assert_eq!(
        chunk.ops,
        vec![
            Op::Jump(Address(7)),
            Op::JumpTrue(Address(8)),
            Op::MakeProc(Address(0), vec![]),
            Op::Diff,
        ]
    );
}
