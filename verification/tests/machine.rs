//! The machine: single steps, faults and whole runs.

use letpl::compiler::compile;
use letpl::name_analysis::resolve_names;
use letpl::offset::{Capture, CaptureOffset, StackOffset};
use letpl::parser::parse;
use letpl::runtime::semantics::Fault;
use letpl::runtime::{run, Address, Machine, Op, Procedure, Value};

fn compiled(src: &str) -> Vec<Op> {
    let program = parse(src).expect("a program");
    let nameless = resolve_names(&program).expect("resolved");
    compile(&nameless).expect("compiled")
}

fn push(x: i64) -> Op {
    Op::PushValue(Value::Integer(x))
}

fn truth(b: bool) -> Op {
    Op::PushValue(Value::Boolean(b))
}

fn expect_fault(ops: Vec<Op>, message: &str) {
    assert_eq!(run(&ops), Err(message.to_string()));
}

#[test]
fn a_new_machine_is_empty() {
    let machine = Machine::new();
    assert_eq!(machine.next_address(), 0);
    assert_eq!(machine.stack_len(), 0);
    assert_eq!(machine.frame_base(), 0);
    assert_eq!(machine.call_depth(), 0);
    assert_eq!(machine.top(), Err(Fault::StackUnderflow));
}

#[test]
fn the_machine_halts_at_the_end_of_the_program() {
    let ops = vec![push(1)];
    let mut machine = Machine::new();
    assert_eq!(machine.step(&ops), Ok(true));
    assert_eq!(machine.next_address(), 1);
    assert_eq!(machine.step(&ops), Ok(false));
    assert_eq!(machine.step(&ops), Ok(false));
    assert_eq!(machine.top(), Ok(Value::Integer(1)));
}

#[test]
fn the_result_is_the_top_of_the_stack() {
    assert_eq!(run(&[push(1), push(2)]), Ok(Value::Integer(2)));
}

#[test]
fn an_empty_program_has_no_result() {
    expect_fault(vec![], "stack underflow");
}

#[test]
fn diff_subtracts_the_top_from_the_one_below() {
    assert_eq!(run(&[push(10), push(3), Op::Diff]), Ok(Value::Integer(7)));
    assert_eq!(run(&[push(3), push(10), Op::Diff]), Ok(Value::Integer(-7)));
}

#[test]
fn diff_wraps_around() {
    assert_eq!(run(&[push(i64::MIN), push(1), Op::Diff]), Ok(Value::Integer(i64::MAX)));
    assert_eq!(run(&[push(i64::MAX), push(-1), Op::Diff]), Ok(Value::Integer(i64::MIN)));
}

#[test]
fn negate_wraps_around() {
    assert_eq!(run(&[push(5), Op::Negate]), Ok(Value::Integer(-5)));
    assert_eq!(run(&[push(i64::MIN), Op::Negate]), Ok(Value::Integer(i64::MIN)));
}

#[test]
fn is_zero_tests_for_zero() {
    assert_eq!(run(&[push(0), Op::IsZero]), Ok(Value::Boolean(true)));
    assert_eq!(run(&[push(-1), Op::IsZero]), Ok(Value::Boolean(false)));
}

#[test]
fn jumps_set_the_next_instruction() {
    assert_eq!(run(&[Op::Jump(Address(2)), push(1), push(2)]), Ok(Value::Integer(2)));
    assert_eq!(
        run(&[truth(true), Op::JumpTrue(Address(3)), push(1), push(2)]),
        Ok(Value::Integer(2))
    );
    assert_eq!(
        run(&[push(5), truth(false), Op::JumpTrue(Address(4)), push(1)]),
        Ok(Value::Integer(1))
    );
}

#[test]
fn a_jump_past_the_end_ends_the_run() {
    assert_eq!(run(&[push(1), Op::Jump(Address(100)), push(2)]), Ok(Value::Integer(1)));
    assert_eq!(run(&[push(1), Op::Jump(Address(usize::MAX))]), Ok(Value::Integer(1)));
}

#[test]
fn globals_are_read_from_the_bottom_and_locals_from_the_frame() {
    assert_eq!(
        run(&[push(7), push(8), Op::PushGlobal(StackOffset(0))]),
        Ok(Value::Integer(7))
    );
    // Outside every procedure the frame begins at the bottom.
    assert_eq!(run(&[push(7), push(8), Op::PushLocal(StackOffset(1))]), Ok(Value::Integer(8)));
}

#[test]
fn a_call_begins_a_frame_at_the_procedure() {
    let ops = vec![
        Op::Jump(Address(3)),
        Op::PushLocal(StackOffset(1)),
        Op::Return,
        push(50),
        Op::MakeProc(Address(1), vec![]),
        push(9),
        Op::Call,
    ];
    let mut machine = Machine::new();
    for _ in 0..5 {
        assert_eq!(machine.step(&ops), Ok(true));
    }
    // The call: the frame begins at the procedure, above the 50.
    assert_eq!(machine.call_depth(), 1);
    assert_eq!(machine.frame_base(), 1);
    assert_eq!(machine.next_address(), 1);
    assert_eq!(machine.stack_len(), 3);
    assert_eq!(machine.step(&ops), Ok(true));
    assert_eq!(machine.top(), Ok(Value::Integer(9)));
    // The return: the result replaces the frame.
    assert_eq!(machine.step(&ops), Ok(true));
    assert_eq!(machine.call_depth(), 0);
    assert_eq!(machine.frame_base(), 0);
    assert_eq!(machine.stack_len(), 2);
    assert_eq!(machine.next_address(), 7);
    assert_eq!(machine.top(), Ok(Value::Integer(9)));
    assert_eq!(machine.step(&ops), Ok(false));
}

#[test]
fn a_tail_call_takes_the_place_of_the_frame() {
    let ops = vec![
        Op::Jump(Address(8)),
        // 1: f: calls its argument, a procedure, with 5, in tail position
        Op::PushLocal(StackOffset(1)),
        push(5),
        Op::TailCall,
        Op::Return,
        // 5: g: gives back its argument
        Op::PushLocal(StackOffset(1)),
        Op::Return,
        Op::Return,
        // 8:
        Op::MakeProc(Address(1), vec![]),
        Op::MakeProc(Address(5), vec![]),
        Op::Call,
    ];
    let mut machine = Machine::new();
    for _ in 0..4 {
        assert_eq!(machine.step(&ops), Ok(true));
    }
    assert_eq!(machine.call_depth(), 1);
    assert_eq!(machine.frame_base(), 0);
    assert_eq!(machine.stack_len(), 2);
    // f pushes g and 5 and makes the tail call.
    assert_eq!(machine.step(&ops), Ok(true));
    assert_eq!(machine.step(&ops), Ok(true));
    assert_eq!(machine.stack_len(), 4);
    assert_eq!(machine.step(&ops), Ok(true));
    assert_eq!(machine.call_depth(), 1);
    assert_eq!(machine.frame_base(), 0);
    assert_eq!(machine.stack_len(), 2);
    assert_eq!(machine.next_address(), 5);
    assert_eq!(machine.top(), Ok(Value::Integer(5)));
    assert_eq!(run(&ops), Ok(Value::Integer(5)));
}

#[test]
fn make_proc_captures_what_its_list_names() {
    let ops = vec![
        Op::Jump(Address(8)),
        // 1: outer(a): makes inner, which captures a from the frame
        Op::Jump(Address(6)),
        // 2: inner(b): a - b
        Op::PushCapture(CaptureOffset(0)),
        Op::PushLocal(StackOffset(1)),
        Op::Diff,
        Op::Return,
        // 6:
        Op::MakeProc(Address(2), vec![Capture::Local(StackOffset(1))]),
        Op::Return,
        // 8:
        Op::MakeProc(Address(1), vec![]),
        push(10),
        Op::Call,
    ];
    match run(&ops) {
        Ok(Value::Procedure(p)) => {
            assert_eq!(p.start, Address(2));
            assert_eq!(*p.captures, vec![Value::Integer(10)]);
        }
        other => panic!("expected a procedure, got {:?}", other),
    }
}

#[test]
fn a_capture_is_taken_when_the_procedure_is_made() {
    // let x = 1 in let f = proc (y: int) x in let x = 2 in (f 0) with x
    // captured by hand from the frame: the procedure keeps the 1.
    let ops = vec![
        push(1),
        Op::Jump(Address(4)),
        Op::PushCapture(CaptureOffset(0)),
        Op::Return,
        Op::MakeProc(Address(2), vec![Capture::Local(StackOffset(0))]),
        push(2),
        Op::PushGlobal(StackOffset(1)),
        push(0),
        Op::Call,
    ];
    assert_eq!(run(&ops), Ok(Value::Integer(1)));
}

#[test]
fn captures_of_captures_are_copied() {
    let inner = Procedure::new(Address(7), vec![Value::Integer(3), Value::Boolean(true)]);
    let ops = vec![
        Op::PushValue(Value::Procedure(std::rc::Rc::new(inner))),
        push(0),
        Op::Call,
        Op::Jump(Address(100)),
        Op::Return,
        Op::Return,
        Op::Return,
        // 7: makes a procedure from both captures, in the other order
        Op::MakeProc(
            Address(4),
            vec![Capture::Capture(CaptureOffset(1)), Capture::Capture(CaptureOffset(0))],
        ),
        Op::Return,
    ];
    match run(&ops) {
        Ok(Value::Procedure(p)) => {
            assert_eq!(*p.captures, vec![Value::Boolean(true), Value::Integer(3)]);
        }
        other => panic!("expected a procedure, got {:?}", other),
    }
}

#[test]
fn every_copy_of_a_procedure_has_the_same_captures() {
    let original = Value::Procedure(std::rc::Rc::new(Procedure::new(
        Address(4),
        vec![Value::Integer(1), Value::Boolean(false)],
    )));
    let first = original.clone();
    let second = first.clone();
    assert_eq!(first, original);
    assert_eq!(second, original);
    match (&original, &second) {
        (Value::Procedure(a), Value::Procedure(b)) => {
            assert!(std::rc::Rc::ptr_eq(&a.captures, &b.captures));
            assert_eq!(*b.captures, vec![Value::Integer(1), Value::Boolean(false)]);
        }
        _ => panic!("expected procedures"),
    }
}

#[test]
fn type_faults_name_what_was_needed() {
    expect_fault(vec![truth(true), push(1), Op::Diff], "value is not an integer");
    expect_fault(vec![push(1), truth(true), Op::Diff], "value is not an integer");
    expect_fault(vec![truth(true), Op::Negate], "value is not an integer");
    expect_fault(vec![truth(true), Op::IsZero], "value is not an integer");
    expect_fault(vec![push(1), Op::JumpTrue(Address(0))], "value is not a boolean");
    expect_fault(vec![push(1), Op::Assert { line: 3 }], "value is not a boolean");
    expect_fault(vec![push(1), push(2), Op::Call], "value is not a procedure");
    expect_fault(vec![push(1), push(2), Op::TailCall], "value is not a procedure");
}

#[test]
fn a_failed_assert_names_its_line() {
    expect_fault(vec![truth(false), Op::Assert { line: 12 }, push(1)], "Assert at line 12");
    assert_eq!(run(&[truth(true), Op::Assert { line: 12 }, push(1)]), Ok(Value::Integer(1)));
}

#[test]
fn too_few_values_are_an_underflow() {
    expect_fault(vec![Op::Diff], "stack underflow");
    expect_fault(vec![push(1), Op::Diff], "stack underflow");
    expect_fault(vec![Op::Negate], "stack underflow");
    expect_fault(vec![Op::IsZero], "stack underflow");
    expect_fault(vec![Op::JumpTrue(Address(0))], "stack underflow");
    expect_fault(vec![Op::Assert { line: 1 }], "stack underflow");
    expect_fault(vec![push(1), Op::Call], "stack underflow");
    expect_fault(vec![push(1), Op::TailCall], "stack underflow");
    expect_fault(vec![Op::Return], "stack underflow");
}

#[test]
fn a_return_without_a_caller_is_a_fault() {
    expect_fault(vec![push(1), Op::Return], "call stack underflow");
}

#[test]
fn slots_beyond_the_stack_are_faults() {
    expect_fault(vec![Op::PushGlobal(StackOffset(0))], "stack offset out of range");
    expect_fault(vec![push(1), Op::PushLocal(StackOffset(1))], "stack offset out of range");
    expect_fault(
        vec![push(1), Op::PushLocal(StackOffset(usize::MAX))],
        "stack offset out of range",
    );
    expect_fault(vec![Op::PushCapture(CaptureOffset(0))], "capture offset out of range");
    expect_fault(
        vec![Op::MakeProc(Address(0), vec![Capture::Local(StackOffset(0))])],
        "stack offset out of range",
    );
    expect_fault(
        vec![Op::MakeProc(Address(0), vec![Capture::Capture(CaptureOffset(0))])],
        "capture offset out of range",
    );
}

#[test]
fn the_first_capture_that_cannot_be_read_decides_the_fault() {
    expect_fault(
        vec![
            push(1),
            Op::MakeProc(
                Address(0),
                vec![
                    Capture::Local(StackOffset(0)),
                    Capture::Capture(CaptureOffset(0)),
                    Capture::Local(StackOffset(9)),
                ],
            ),
        ],
        "capture offset out of range",
    );
}

#[test]
fn faults_have_messages() {
    assert_eq!(Fault::NotAnInteger.message(), "value is not an integer");
    assert_eq!(Fault::NotABoolean.message(), "value is not a boolean");
    assert_eq!(Fault::NotAProcedure.message(), "value is not a procedure");
    assert_eq!(Fault::StackUnderflow.message(), "stack underflow");
    assert_eq!(Fault::CallStackUnderflow.message(), "call stack underflow");
    assert_eq!(Fault::StackOutOfRange.message(), "stack offset out of range");
    assert_eq!(Fault::CaptureOutOfRange.message(), "capture offset out of range");
    assert_eq!(Fault::AssertFailed { line: 120 }.message(), "Assert at line 120");
    assert_eq!(Fault::OutOfSteps.message(), "out of steps");
}

#[test]
fn values_say_what_they_are() {
    assert_eq!(Value::Integer(4).as_int(), Ok(4));
    assert_eq!(Value::Boolean(true).as_int(), Err(String::from("value is not an integer")));
    assert_eq!(Value::Boolean(true).as_bool(), Ok(true));
    assert_eq!(Value::Integer(4).as_bool(), Err(String::from("value is not a boolean")));
    let procedure = Value::Procedure(std::rc::Rc::new(Procedure::new(Address(3), vec![])));
    assert_eq!(procedure.as_proc().map(|p| p.start), Ok(Address(3)));
    assert_eq!(
        Value::Integer(4).as_proc().map(|p| p.start),
        Err(String::from("value is not a procedure"))
    );
}

#[test]
fn values_are_rendered() {
    assert_eq!(Value::Integer(-12).to_string(), "-12");
    assert_eq!(Value::Integer(0).to_string(), "0");
    assert_eq!(Value::Boolean(true).to_string(), "true");
    assert_eq!(Value::Boolean(false).to_string(), "false");
    let procedure = Procedure::new(Address(17), vec![]);
    assert_eq!(procedure.to_string(), "<proc @17>");
    assert_eq!(Value::Procedure(std::rc::Rc::new(procedure)).to_string(), "<proc @17>");
}

/// Runs a program step by step. Returns the greatest depth of the call
/// stack, and checks before and after every instruction that every frame
/// begins within the value stack.
fn greatest_call_depth(ops: &[Op]) -> usize {
    let mut machine = Machine::new();
    let mut deepest = 0;
    loop {
        assert!(machine.frame_base() <= machine.stack_len());
        match machine.step(ops) {
            Ok(true) => {
                if machine.call_depth() > deepest {
                    deepest = machine.call_depth();
                }
            }
            Ok(false) => return deepest,
            Err(fault) => panic!("unexpected fault: {}", fault.message()),
        }
    }
}

#[test]
fn tail_calls_keep_the_call_stack_flat() {
    let depth_of = |n: u32| {
        greatest_call_depth(&compiled(&format!(
            "letrec int loop(n: int) if zero?(n) then 0 else (loop -(n, 1)) in (loop {})",
            n
        )))
    };
    assert_eq!(depth_of(1), 1);
    assert_eq!(depth_of(10), 1);
    assert_eq!(depth_of(1000), 1);
    assert_eq!(depth_of(100000), 1);
}

#[test]
fn mutual_tail_calls_keep_the_call_stack_flat() {
    let depth_of = |n: u32| {
        greatest_call_depth(&compiled(&format!(
            "letrec int ping(f: (int -> int)) (f 1) in \
             letrec int count(n: int) if zero?(n) then 0 else (count -(n, 1)) in \
             (ping proc (x: int) (count {}))",
            n
        )))
    };
    assert_eq!(depth_of(5), depth_of(5000));
}

#[test]
fn calls_that_are_not_last_deepen_the_call_stack() {
    let depth_of = |n: u32| {
        greatest_call_depth(&compiled(&format!(
            "letrec int sum(n: int) if zero?(n) then 0 else -(n, -(0, (sum -(n,1)))) in (sum {})",
            n
        )))
    };
    assert_eq!(depth_of(5), 6);
    assert_eq!(depth_of(50), 51);
}

#[test]
fn frames_begin_within_the_stack_throughout_a_run() {
    let sources = [
        "let mk = proc (x: int) proc (y: int) -(x, y) in ((mk 10) 3)",
        "letrec int sum(n: int) if zero?(n) then 0 else -(n, -(0, (sum -(n,1)))) in (sum 20)",
        "let a = 1 in let f = proc (g: (int -> int)) (g (g a)) in (f proc (x: int) -(x, 1))",
    ];
    for src in sources {
        greatest_call_depth(&compiled(src));
    }
}
