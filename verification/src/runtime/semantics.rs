//! What the machine does, as mathematics.
//!
//! A machine state is a `MachineView`; `step` executes the instruction at
//! the instruction pointer; `outcome` iterates `step` until the program ends,
//! a fault occurs or a budget of steps is used up.

use vstd::prelude::*;
use crate::offset::{Capture, CaptureOffset, StackOffset};
use crate::util::decimal;

verus! {

/// A value as a mathematical object: a procedure is its start address and
/// the values that it captured.
pub enum ValueView {
    Integer(i64),
    Boolean(bool),
    Procedure { start: nat, captures: Seq<ValueView> },
}

/// An instruction as a mathematical object.
pub enum OpView {
    Assert { line: usize },
    Call,
    Diff,
    IsZero,
    Jump(nat),
    JumpTrue(nat),
    MakeProc(nat, Seq<Capture>),
    Negate,
    PushCapture(CaptureOffset),
    PushGlobal(StackOffset),
    PushLocal(StackOffset),
    PushValue(ValueView),
    Return,
    TailCall,
}

/// What a call saves of its caller, to restore it on return.
pub struct FrameView {
    pub next_op: nat,
    pub stack_base: nat,
    pub captures: Seq<ValueView>,
}

/// A state of the machine.
pub struct MachineView {
    /// The address of the next instruction.
    pub next_op: nat,
    /// The value stack, bottom first.
    pub stack: Seq<ValueView>,
    /// Where in the value stack the current frame begins.
    pub stack_base: nat,
    /// What the current procedure captured.
    pub captures: Seq<ValueView>,
    /// The callers that wait for a return, outermost first.
    pub call_stack: Seq<FrameView>,
}

/// Why the machine stopped without a value.
#[derive(Clone, Copy, Debug, PartialEq, Eq)]
pub enum Fault {
    /// An integer was needed and the value was none.
    NotAnInteger,
    /// A Boolean was needed and the value was none.
    NotABoolean,
    /// A procedure was needed and the value was none.
    NotAProcedure,
    /// A value was needed and the value stack held too few.
    StackUnderflow,
    /// A return found no caller.
    CallStackUnderflow,
    /// A stack slot was read that lies above the top of the stack.
    StackOutOfRange,
    /// A capture was read that the current procedure does not have.
    CaptureOutOfRange,
    /// An `Assert` found `false`.
    AssertFailed { line: usize },
    /// The budget of steps was used up before the program ended.
    OutOfSteps,
}

/// The result of one step.
pub enum Step {
    /// The instruction pointer is past the program: nothing is left to do.
    Halt,
    /// An instruction was executed.
    Next(MachineView),
    /// The instruction could not be executed.
    Fault(Fault),
}

/// The state in which every run begins.
pub open spec fn initial() -> MachineView {
    MachineView {
        next_op: 0,
        stack: Seq::empty(),
        stack_base: 0,
        captures: Seq::empty(),
        call_stack: Seq::empty(),
    }
}

/// The negative of `x` in two's complement: the least `i64` is its own
/// negative.
pub open spec fn negated(x: i64) -> i64 {
    if x == i64::MIN {
        x
    } else {
        (-x) as i64
    }
}

/// `a - b` in two's complement: a difference outside `i64` wraps around.
pub open spec fn difference(a: i64, b: i64) -> i64 {
    if a - b > i64::MAX {
        (a - b - 0x1_0000_0000_0000_0000) as i64
    } else if a - b < i64::MIN {
        (a - b + 0x1_0000_0000_0000_0000) as i64
    } else {
        (a - b) as i64
    }
}

/// Pops an integer.
pub open spec fn pop_int(stack: Seq<ValueView>) -> Result<(i64, Seq<ValueView>), Fault> {
    if stack.len() == 0 {
        Err(Fault::StackUnderflow)
    } else {
        match stack.last() {
            ValueView::Integer(x) => Ok((x, stack.drop_last())),
            _ => Err(Fault::NotAnInteger),
        }
    }
}

/// Pops a Boolean.
pub open spec fn pop_bool(stack: Seq<ValueView>) -> Result<(bool, Seq<ValueView>), Fault> {
    if stack.len() == 0 {
        Err(Fault::StackUnderflow)
    } else {
        match stack.last() {
            ValueView::Boolean(b) => Ok((b, stack.drop_last())),
            _ => Err(Fault::NotABoolean),
        }
    }
}

/// The stack cut down to `base` values; a stack that is shorter stays as it
/// is.
pub open spec fn cut(stack: Seq<ValueView>, base: nat) -> Seq<ValueView> {
    if base <= stack.len() {
        stack.take(base as int)
    } else {
        stack
    }
}

/// The value of the stack slot `index`.
pub open spec fn slot(stack: Seq<ValueView>, index: int) -> Result<ValueView, Fault> {
    if 0 <= index < stack.len() {
        Ok(stack[index])
    } else {
        Err(Fault::StackOutOfRange)
    }
}

/// The value that a procedure made in state `m` captures for `capture`.
pub open spec fn captured(m: MachineView, capture: Capture) -> Result<ValueView, Fault> {
    match capture {
        Capture::Local(offset) => slot(m.stack, m.stack_base + offset.0),
        Capture::Capture(offset) => if offset.0 < m.captures.len() {
            Ok(m.captures[offset.0 as int])
        } else {
            Err(Fault::CaptureOutOfRange)
        },
    }
}

/// The values that a procedure made in state `m` captures for the list
/// `captures`, in order; or the fault of the first one that cannot be read.
pub open spec fn materialize(m: MachineView, captures: Seq<Capture>) -> Result<
    Seq<ValueView>,
    Fault,
>
    decreases captures.len(),
{
    if captures.len() == 0 {
        Ok(Seq::empty())
    } else {
        match materialize(m, captures.drop_last()) {
            Err(fault) => Err(fault),
            Ok(values) => match captured(m, captures.last()) {
                Err(fault) => Err(fault),
                Ok(value) => Ok(values.push(value)),
            },
        }
    }
}

/// The state `m` with the next instruction at `next_op` and the stack
/// `stack`.
pub open spec fn advance(m: MachineView, next_op: nat, stack: Seq<ValueView>) -> MachineView {
    MachineView { next_op, stack, ..m }
}

/// `Call`: the procedure lies two below the top, its argument on top. The
/// caller's state is saved, and the frame of the callee begins at the
/// procedure.
pub open spec fn step_call(m: MachineView) -> Step {
    if m.stack.len() < 2 {
        Step::Fault(Fault::StackUnderflow)
    } else {
        let base = (m.stack.len() - 2) as nat;
        match m.stack[base as int] {
            ValueView::Procedure { start, captures } => Step::Next(
                MachineView {
                    next_op: start,
                    stack: m.stack,
                    stack_base: base,
                    captures,
                    call_stack: m.call_stack.push(
                        FrameView {
                            next_op: (m.next_op + 1) as nat,
                            stack_base: m.stack_base,
                            captures: m.captures,
                        },
                    ),
                },
            ),
            _ => Step::Fault(Fault::NotAProcedure),
        }
    }
}

/// `TailCall`: the procedure and its argument replace the current frame,
/// and no caller is saved.
pub open spec fn step_tail_call(m: MachineView) -> Step {
    if m.stack.len() < 2 {
        Step::Fault(Fault::StackUnderflow)
    } else {
        let argument = m.stack[m.stack.len() - 1];
        let procedure = m.stack[m.stack.len() - 2];
        let rest = cut(m.stack.take(m.stack.len() - 2), m.stack_base);
        match procedure {
            ValueView::Procedure { start, captures } => Step::Next(
                MachineView {
                    next_op: start,
                    stack: rest.push(procedure).push(argument),
                    stack_base: m.stack_base,
                    captures,
                    call_stack: m.call_stack,
                },
            ),
            _ => Step::Fault(Fault::NotAProcedure),
        }
    }
}

/// `Return`: the value on top replaces the current frame, and the caller
/// that was saved last goes on.
pub open spec fn step_return(m: MachineView) -> Step {
    if m.stack.len() == 0 {
        Step::Fault(Fault::StackUnderflow)
    } else if m.call_stack.len() == 0 {
        Step::Fault(Fault::CallStackUnderflow)
    } else {
        let frame = m.call_stack.last();
        Step::Next(
            MachineView {
                next_op: frame.next_op,
                stack: cut(m.stack, m.stack_base).push(m.stack.last()),
                stack_base: frame.stack_base,
                captures: frame.captures,
                call_stack: m.call_stack.drop_last(),
            },
        )
    }
}

/// One step of the machine on `program`.
pub open spec fn step(program: Seq<OpView>, m: MachineView) -> Step {
    if m.next_op >= program.len() {
        Step::Halt
    } else {
        let next = (m.next_op + 1) as nat;
        match program[m.next_op as int] {
            OpView::Assert { line } => match pop_bool(m.stack) {
                Err(fault) => Step::Fault(fault),
                Ok((holds, rest)) => if holds {
                    Step::Next(advance(m, next, rest))
                } else {
                    Step::Fault(Fault::AssertFailed { line })
                },
            },
            OpView::Call => step_call(m),
            OpView::Diff => match pop_int(m.stack) {
                Err(fault) => Step::Fault(fault),
                Ok((right, rest)) => match pop_int(rest) {
                    Err(fault) => Step::Fault(fault),
                    Ok((left, rest)) => Step::Next(
                        advance(m, next, rest.push(ValueView::Integer(difference(left, right)))),
                    ),
                },
            },
            OpView::IsZero => match pop_int(m.stack) {
                Err(fault) => Step::Fault(fault),
                Ok((x, rest)) => Step::Next(
                    advance(m, next, rest.push(ValueView::Boolean(x == 0))),
                ),
            },
            OpView::Jump(target) => Step::Next(advance(m, target, m.stack)),
            OpView::JumpTrue(target) => match pop_bool(m.stack) {
                Err(fault) => Step::Fault(fault),
                Ok((holds, rest)) => Step::Next(
                    advance(m, if holds { target } else { next }, rest),
                ),
            },
            OpView::MakeProc(start, captures) => match materialize(m, captures) {
                Err(fault) => Step::Fault(fault),
                Ok(values) => Step::Next(
                    advance(
                        m,
                        next,
                        m.stack.push(ValueView::Procedure { start, captures: values }),
                    ),
                ),
            },
            OpView::Negate => match pop_int(m.stack) {
                Err(fault) => Step::Fault(fault),
                Ok((x, rest)) => Step::Next(
                    advance(m, next, rest.push(ValueView::Integer(negated(x)))),
                ),
            },
            OpView::PushCapture(offset) => if offset.0 < m.captures.len() {
                Step::Next(advance(m, next, m.stack.push(m.captures[offset.0 as int])))
            } else {
                Step::Fault(Fault::CaptureOutOfRange)
            },
            OpView::PushGlobal(offset) => match slot(m.stack, offset.0 as int) {
                Err(fault) => Step::Fault(fault),
                Ok(value) => Step::Next(advance(m, next, m.stack.push(value))),
            },
            OpView::PushLocal(offset) => match slot(m.stack, m.stack_base + offset.0) {
                Err(fault) => Step::Fault(fault),
                Ok(value) => Step::Next(advance(m, next, m.stack.push(value))),
            },
            OpView::PushValue(value) => Step::Next(advance(m, next, m.stack.push(value))),
            OpView::Return => step_return(m),
            OpView::TailCall => step_tail_call(m),
        }
    }
}

/// What a run from state `m` ends in when it may take `budget` steps: the
/// value on top of the stack when the program has ended, or a fault.
pub open spec fn outcome(program: Seq<OpView>, m: MachineView, budget: nat) -> Result<
    ValueView,
    Fault,
>
    decreases budget,
{
    match step(program, m) {
        Step::Halt => if m.stack.len() == 0 {
            Err(Fault::StackUnderflow)
        } else {
            Ok(m.stack.last())
        },
        Step::Fault(fault) => Err(fault),
        Step::Next(next) => if budget == 0 {
            Err(Fault::OutOfSteps)
        } else {
            outcome(program, next, (budget - 1) as nat)
        },
    }
}

/// The state after `n` steps of a run from the state `m`, if the run takes
/// that many steps.
pub open spec fn reached(program: Seq<OpView>, m: MachineView, n: nat) -> Option<MachineView>
    decreases n,
{
    if n == 0 {
        Some(m)
    } else {
        match reached(program, m, (n - 1) as nat) {
            Some(before) => match step(program, before) {
                Step::Next(next) => Some(next),
                _ => None,
            },
            None => None,
        }
    }
}

/// The message of a fault.
pub open spec fn fault_message(fault: Fault) -> Seq<char> {
    match fault {
        Fault::NotAnInteger => "value is not an integer"@,
        Fault::NotABoolean => "value is not a boolean"@,
        Fault::NotAProcedure => "value is not a procedure"@,
        Fault::StackUnderflow => "stack underflow"@,
        Fault::CallStackUnderflow => "call stack underflow"@,
        Fault::StackOutOfRange => "stack offset out of range"@,
        Fault::CaptureOutOfRange => "capture offset out of range"@,
        Fault::AssertFailed { line } => "Assert at line "@ + decimal(line as nat),
        Fault::OutOfSteps => "out of steps"@,
    }
}

} // verus!
