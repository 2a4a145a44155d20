//! What every step of the machine keeps: how the frames lie in the value
//! stack, when the call stack grows, and what a new procedure captures.

use vstd::prelude::*;
use crate::runtime::semantics::{
    captured, initial, materialize, step, MachineView, OpView, Step, ValueView,
};

verus! {

/// Every frame begins within the value stack: the base of the current frame
/// and the base of every caller that waits are at most the height of the
/// stack.
pub open spec fn frames_fit(m: MachineView) -> bool {
    &&& m.stack_base <= m.stack.len()
    &&& forall|i: int|
        0 <= i < m.call_stack.len() ==> (#[trigger] m.call_stack[i]).stack_base <= m.stack.len()
}

/// The frames nest: no caller's frame begins above the frame of one that it
/// called, and the current frame begins within the stack.
pub open spec fn frames_nest(m: MachineView) -> bool {
    &&& m.stack_base <= m.stack.len()
    &&& forall|i: int|
        0 <= i < m.call_stack.len() ==> (#[trigger] m.call_stack[i]).stack_base <= m.stack_base
    &&& forall|i: int, j: int|
        0 <= i <= j < m.call_stack.len() ==> (#[trigger] m.call_stack[i]).stack_base <= (
        #[trigger] m.call_stack[j]).stack_base
}

/// Whether the next instruction keeps to the current frame: an instruction
/// that takes more values than it leaves does not take the stack below the
/// base of the frame, and a call finds its procedure at or above the base.
pub open spec fn keeps_to_frame(program: Seq<OpView>, m: MachineView) -> bool {
    m.next_op < program.len() ==> match program[m.next_op as int] {
        OpView::Diff => m.stack_base + 1 <= m.stack.len(),
        OpView::JumpTrue(_) => m.stack_base + 1 <= m.stack.len(),
        OpView::Assert { .. } => m.stack_base + 1 <= m.stack.len(),
        OpView::Call => m.stack_base + 2 <= m.stack.len(),
        _ => true,
    }
}

/// At the start of a run the frames nest.
pub proof fn lemma_initial_frames_nest()
    ensures
        frames_nest(initial()),
{
}

/// Frames that nest fit the stack.
pub proof fn lemma_nested_frames_fit(m: MachineView)
    requires
        frames_nest(m),
    ensures
        frames_fit(m),
{
}

/// Stack conservation: if the frames nest, they still nest after every
/// instruction that keeps to the current frame; so every frame begins
/// within the value stack before the instruction and after it.
pub proof fn lemma_step_keeps_frames(program: Seq<OpView>, m: MachineView)
    requires
        frames_nest(m),
        keeps_to_frame(program, m),
    ensures
        step(program, m) matches Step::Next(next) ==> frames_nest(next) && frames_fit(next),
{
    if let Step::Next(next) = step(program, m) {
        match program[m.next_op as int] {
            OpView::Call => {
                assert forall|i: int| 0 <= i < next.call_stack.len() implies (
                #[trigger] next.call_stack[i]).stack_base <= next.stack_base by {
                    if i < m.call_stack.len() {
                        assert(next.call_stack[i] == m.call_stack[i]);
                    }
                }
                assert forall|i: int, j: int| 0 <= i <= j < next.call_stack.len() implies (
                #[trigger] next.call_stack[i]).stack_base <= (
                #[trigger] next.call_stack[j]).stack_base by {
                    if j < m.call_stack.len() {
                        assert(next.call_stack[i] == m.call_stack[i]);
                        assert(next.call_stack[j] == m.call_stack[j]);
                    } else if i < m.call_stack.len() {
                        assert(next.call_stack[i] == m.call_stack[i]);
                    }
                }
            },
            OpView::Return => {
                let frame = m.call_stack.last();
                assert forall|i: int| 0 <= i < next.call_stack.len() implies (
                #[trigger] next.call_stack[i]).stack_base <= next.stack_base by {
                    assert(next.call_stack[i] == m.call_stack[i]);
                }
                assert forall|i: int, j: int| 0 <= i <= j < next.call_stack.len() implies (
                #[trigger] next.call_stack[i]).stack_base <= (
                #[trigger] next.call_stack[j]).stack_base by {
                    assert(next.call_stack[i] == m.call_stack[i]);
                    assert(next.call_stack[j] == m.call_stack[j]);
                }
            },
            _ => {},
        }
    }
}

/// Only a `Call` lets the call stack grow, and it grows by one. A
/// `TailCall` leaves the call stack as it is, stays in the frame it is in,
/// and leaves of that frame the procedure and its argument.
pub proof fn lemma_only_call_deepens(program: Seq<OpView>, m: MachineView)
    ensures
        step(program, m) matches Step::Next(next) ==> {
            &&& next.call_stack.len() <= m.call_stack.len() + 1
            &&& next.call_stack.len() > m.call_stack.len() ==> program[m.next_op as int]
                == OpView::Call
            &&& program[m.next_op as int] == OpView::TailCall ==> {
                &&& next.call_stack == m.call_stack
                &&& next.stack_base == m.stack_base
                &&& m.stack_base + 2 <= m.stack.len() ==> next.stack.len() == m.stack_base + 2
            }
        },
{
}

/// A procedure captures what its captures name when it is made: `MakeProc`
/// pushes a procedure with one captured value for each capture, in order,
/// and each is the value that the capture names in the state before: a slot
/// of the current frame, or a capture of the current procedure.
pub proof fn lemma_made_procedure_captures(program: Seq<OpView>, m: MachineView)
    requires
        m.next_op < program.len(),
        program[m.next_op as int] is MakeProc,
    ensures
        step(program, m) matches Step::Next(next) ==> {
            &&& next.stack == m.stack.push(next.stack.last())
            &&& next.stack.last() matches ValueView::Procedure { start, captures }
            &&& program[m.next_op as int] matches OpView::MakeProc(made_start, capture_list)
            &&& start == made_start
            &&& captures.len() == capture_list.len()
            &&& forall|i: int|
                0 <= i < captures.len() ==> captured(m, capture_list[i]) == Ok::<
                    ValueView,
                    crate::runtime::semantics::Fault,
                >(#[trigger] captures[i])
        },
{
    if let OpView::MakeProc(start, capture_list) = program[m.next_op as int] {
        lemma_materialized(m, capture_list);
    }
}

/// The values that `materialize` gives are the captured values, in order.
pub proof fn lemma_materialized(m: MachineView, capture_list: Seq<crate::offset::Capture>)
    ensures
        materialize(m, capture_list) matches Ok(values) ==> {
            &&& values.len() == capture_list.len()
            &&& forall|i: int|
                0 <= i < values.len() ==> captured(m, capture_list[i]) == Ok::<
                    ValueView,
                    crate::runtime::semantics::Fault,
                >(#[trigger] values[i])
        },
    decreases capture_list.len(),
{
    if capture_list.len() > 0 {
        lemma_materialized(m, capture_list.drop_last());
    }
}

/// No instruction changes a value in place: the stack after a step is the
/// stack before it, as far as it reaches, but for its top two values.
pub proof fn lemma_step_keeps_values(program: Seq<OpView>, m: MachineView)
    ensures
        step(program, m) matches Step::Next(next) ==> forall|i: int|
            0 <= i < next.stack.len() - 2 && i < m.stack.len() ==> #[trigger] next.stack[i]
                == m.stack[i],
{
}

} // verus!
