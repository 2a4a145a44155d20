//! The stack discipline that keeps the frames of a run in order.
//!
//! A plan gives for each instruction of a program a height that the current
//! frame is to have at least when the instruction is executed, and says
//! whether the instruction belongs to the body of a procedure.
//! `segment_safe` says of a program and a plan that every instruction finds
//! the values that it takes in the current frame, if the run keeps to the
//! plan. `machine_ok` is what then holds of every state of a run: it holds
//! at the start, every step keeps it, and it has the frames nest.

use vstd::prelude::*;
use crate::runtime::frames::{frames_fit, frames_nest, keeps_to_frame, lemma_materialized};
use crate::runtime::semantics::{
    captured, cut, initial, materialize, outcome, reached, step, Fault, FrameView, MachineView,
    OpView, Step, ValueView,
};

verus! {

/// What a program counts on where one of its instructions is executed.
pub struct Spot {
    /// A height that the current frame has at least.
    pub height: nat,
    /// Whether the instruction belongs to the body of a procedure, so that
    /// it is executed for a caller.
    pub inside: bool,
}

/// Whether the instruction `j` of `code` is safe with the plan `plan`: it
/// finds the values that it takes, what comes next counts on no more than it
/// leaves, and control stays in the body of a procedure, or outside every
/// body, unless a call or a return takes it across. `code` begins at the
/// address `at`; `plan` has one spot for each instruction, and one for the
/// end of the code.
pub open spec fn safe_at(code: Seq<OpView>, at: nat, plan: Seq<Spot>, j: int) -> bool {
    let here = plan[j].height;
    let next = plan[j + 1].height;
    let stays = plan[j + 1].inside == plan[j].inside;
    match code[j] {
        OpView::PushValue(value) => !(value is Procedure) && next <= here + 1 && stays,
        OpView::PushLocal(_) => next <= here + 1 && stays,
        OpView::PushGlobal(_) => next <= here + 1 && stays,
        OpView::PushCapture(_) => next <= here + 1 && stays,
        OpView::MakeProc(start, _) => at <= start < at + code.len() && plan[start - at].height
            <= 2 && plan[start - at].inside && next <= here + 1 && stays,
        OpView::Diff => here >= 2 && next + 1 <= here && stays,
        OpView::Negate => here >= 1 && next <= here && stays,
        OpView::IsZero => here >= 1 && next <= here && stays,
        OpView::Assert { .. } => here >= 1 && next + 1 <= here && stays,
        OpView::Jump(target) => at <= target <= at + code.len() && plan[target - at].height
            <= here && plan[target - at].inside == plan[j].inside,
        OpView::JumpTrue(target) => here >= 1 && at <= target <= at + code.len() && plan[target
            - at].height + 1 <= here && plan[target - at].inside == plan[j].inside && next + 1
            <= here && stays,
        OpView::Call => here >= 2 && next + 1 <= here && stays,
        OpView::TailCall => here >= 2 && plan[j].inside,
        OpView::Return => here >= 1 && plan[j].inside,
    }
}

/// Whether every instruction of `code` is safe with the plan `plan`.
pub open spec fn segment_safe(code: Seq<OpView>, at: nat, plan: Seq<Spot>) -> bool {
    &&& plan.len() == code.len() + 1
    &&& forall|j: int| 0 <= j < code.len() ==> #[trigger] safe_at(code, at, plan, j)
}

/// Whether every procedure in `value`, which is the value itself or one
/// that it has captured, starts in the body of a procedure, at an
/// instruction that counts on no more than a new frame has: the procedure
/// and its argument.
pub open spec fn value_ok(program: Seq<OpView>, plan: Seq<Spot>, value: ValueView) -> bool
    decreases value, 0nat,
{
    match value {
        ValueView::Procedure { start, captures } => {
            &&& start < program.len()
            &&& plan[start as int].height <= 2
            &&& plan[start as int].inside
            &&& first_ok(program, plan, captures, captures.len())
        },
        _ => true,
    }
}

/// Whether `value_ok` holds of the first `n` values of a sequence.
pub open spec fn first_ok(
    program: Seq<OpView>,
    plan: Seq<Spot>,
    values: Seq<ValueView>,
    n: nat,
) -> bool
    decreases values, n,
{
    if n == 0 || n > values.len() {
        true
    } else {
        first_ok(program, plan, values, (n - 1) as nat) && value_ok(
            program,
            plan,
            values[n - 1],
        )
    }
}

/// `first_ok` holds of the first `n` values where `value_ok` holds of each
/// of them.
pub proof fn lemma_first_ok(
    program: Seq<OpView>,
    plan: Seq<Spot>,
    values: Seq<ValueView>,
    n: nat,
)
    requires
        n <= values.len(),
    ensures
        first_ok(program, plan, values, n) <==> forall|i: int|
            0 <= i < n ==> #[trigger] value_ok(program, plan, values[i]),
    decreases n,
{
    if n > 0 {
        let before = (n - 1) as nat;
        lemma_first_ok(program, plan, values, before);
        if first_ok(program, plan, values, n) {
            assert(first_ok(program, plan, values, before));
            assert(value_ok(program, plan, values[n - 1]));
            assert forall|i: int| 0 <= i < n implies #[trigger] value_ok(
                program,
                plan,
                values[i],
            ) by {
                if i < before {
                } else {
                    assert(i == n - 1);
                }
            }
        }
        if forall|i: int| 0 <= i < n ==> #[trigger] value_ok(program, plan, values[i]) {
            assert(value_ok(program, plan, values[n - 1]));
            assert forall|i: int| 0 <= i < before implies #[trigger] value_ok(
                program,
                plan,
                values[i],
            ) by {}
            assert(first_ok(program, plan, values, before));
            assert(first_ok(program, plan, values, n));
        }
    }
}

/// A procedure is good where it starts at an instruction that a new frame
/// suffices for and has captured good values.
pub proof fn lemma_procedure_ok(
    program: Seq<OpView>,
    plan: Seq<Spot>,
    start: nat,
    captures: Seq<ValueView>,
)
    ensures
        value_ok(program, plan, ValueView::Procedure { start, captures }) <==> start
            < program.len() && plan[start as int].height <= 2 && plan[start as int].inside
            && values_ok(program, plan, captures),
{
    lemma_first_ok(program, plan, captures, captures.len());
}

/// Whether `value_ok` holds of every value of a sequence.
pub open spec fn values_ok(program: Seq<OpView>, plan: Seq<Spot>, values: Seq<ValueView>) -> bool {
    forall|i: int| 0 <= i < values.len() ==> #[trigger] value_ok(program, plan, values[i])
}

/// Where the frame begins that the caller `k` waits for: the frame of the
/// next caller, or the current frame.
pub open spec fn callee_base(m: MachineView, k: int) -> nat {
    if k + 1 < m.call_stack.len() {
        m.call_stack[k + 1].stack_base
    } else {
        m.stack_base
    }
}

/// Whether a caller can go on when the frame that begins at `callee_base`
/// has made way for its result. Every caller but the outermost goes on in
/// the body of a procedure.
pub open spec fn frame_ok(
    program: Seq<OpView>,
    plan: Seq<Spot>,
    frame: FrameView,
    callee_base: nat,
    outermost: bool,
) -> bool {
    &&& frame.next_op <= program.len()
    &&& frame.stack_base <= callee_base
    &&& plan[frame.next_op as int].height + frame.stack_base <= callee_base + 1
    &&& plan[frame.next_op as int].inside == !outermost
    &&& values_ok(program, plan, frame.captures)
}

/// What holds of every state of a run of a program that is safe with
/// `plan`: the current frame has the height that the next instruction
/// counts on, every caller will have the height that it counts on when it
/// goes on, a caller waits exactly while the body of a procedure is
/// executed, and every procedure starts where a new frame suffices.
pub open spec fn machine_ok(program: Seq<OpView>, plan: Seq<Spot>, m: MachineView) -> bool {
    &&& m.next_op <= program.len()
    &&& plan[m.next_op as int].height + m.stack_base <= m.stack.len()
    &&& plan[m.next_op as int].inside == (m.call_stack.len() > 0)
    &&& values_ok(program, plan, m.stack)
    &&& values_ok(program, plan, m.captures)
    &&& forall|k: int|
        0 <= k < m.call_stack.len() ==> frame_ok(
            program,
            plan,
            #[trigger] m.call_stack[k],
            callee_base(m, k),
            k == 0,
        )
}

/// A run begins in a state of which `machine_ok` holds, if the program
/// begins outside every procedure and counts on nothing on the stack.
pub proof fn lemma_initial_ok(program: Seq<OpView>, plan: Seq<Spot>)
    requires
        plan.len() == program.len() + 1,
        plan[0] == (Spot { height: 0, inside: false }),
    ensures
        machine_ok(program, plan, initial()),
{
}

/// A state of which `machine_ok` holds has its frames nest, and its next
/// instruction keeps to the current frame.
pub proof fn lemma_ok_frames_nest(program: Seq<OpView>, plan: Seq<Spot>, m: MachineView)
    requires
        segment_safe(program, 0, plan),
        machine_ok(program, plan, m),
    ensures
        frames_nest(m),
        frames_fit(m),
        keeps_to_frame(program, m),
{
    let n = m.call_stack.len() as int;
    assert forall|i: int| 0 <= i < n implies (#[trigger] m.call_stack[i]).stack_base
        <= m.stack_base by {
        lemma_bases_rise(program, plan, m, i, n);
    }
    assert forall|i: int, j: int| 0 <= i <= j < n implies (#[trigger] m.call_stack[i]).stack_base
        <= (#[trigger] m.call_stack[j]).stack_base by {
        lemma_bases_rise(program, plan, m, i, j);
    }
    if m.next_op < program.len() {
        assert(safe_at(program, 0, plan, m.next_op as int));
    }
}

/// No caller's frame begins above the frame of a later caller, or above
/// the current frame, which stands for the caller `j == m.call_stack.len()`.
proof fn lemma_bases_rise(
    program: Seq<OpView>,
    plan: Seq<Spot>,
    m: MachineView,
    i: int,
    j: int,
)
    requires
        machine_ok(program, plan, m),
        0 <= i <= j <= m.call_stack.len(),
        i < m.call_stack.len(),
    ensures
        m.call_stack[i].stack_base <= if j < m.call_stack.len() {
            m.call_stack[j].stack_base
        } else {
            m.stack_base
        },
    decreases j - i,
{
    if i < j {
        assert(frame_ok(program, plan, m.call_stack[i], callee_base(m, i), i == 0));
        if i + 1 < m.call_stack.len() {
            lemma_bases_rise(program, plan, m, i + 1, j);
        }
    }
}

/// A sequence of good values with one more good value is a sequence of good
/// values.
proof fn lemma_values_push(
    program: Seq<OpView>,
    plan: Seq<Spot>,
    values: Seq<ValueView>,
    value: ValueView,
)
    requires
        values_ok(program, plan, values),
        value_ok(program, plan, value),
    ensures
        values_ok(program, plan, values.push(value)),
{
    assert forall|i: int| 0 <= i < values.push(value).len() implies #[trigger] value_ok(
        program,
        plan,
        values.push(value)[i],
    ) by {
        if i < values.len() {
            assert(value_ok(program, plan, values[i]));
        }
    }
}

/// The first values of a sequence of good values are good values.
proof fn lemma_values_take(
    program: Seq<OpView>,
    plan: Seq<Spot>,
    values: Seq<ValueView>,
    n: int,
)
    requires
        values_ok(program, plan, values),
        0 <= n <= values.len(),
    ensures
        values_ok(program, plan, values.take(n)),
{
    assert forall|i: int| 0 <= i < values.take(n).len() implies #[trigger] value_ok(
        program,
        plan,
        values.take(n)[i],
    ) by {
        assert(value_ok(program, plan, values[i]));
    }
}

/// A stack of good values that is cut down is a stack of good values.
proof fn lemma_values_cut(
    program: Seq<OpView>,
    plan: Seq<Spot>,
    values: Seq<ValueView>,
    base: nat,
)
    requires
        values_ok(program, plan, values),
    ensures
        values_ok(program, plan, cut(values, base)),
{
    if base <= values.len() {
        lemma_values_take(program, plan, values, base as int);
    }
}

/// What a procedure captures in a good state are good values.
proof fn lemma_captures_ok(
    program: Seq<OpView>,
    plan: Seq<Spot>,
    m: MachineView,
    capture_list: Seq<crate::offset::Capture>,
)
    requires
        values_ok(program, plan, m.stack),
        values_ok(program, plan, m.captures),
    ensures
        materialize(m, capture_list) matches Ok(values) ==> values_ok(program, plan, values),
{
    lemma_materialized(m, capture_list);
    if let Ok(values) = materialize(m, capture_list) {
        assert forall|i: int| 0 <= i < values.len() implies #[trigger] value_ok(
            program,
            plan,
            values[i],
        ) by {
            assert(captured(m, capture_list[i]) == Ok::<ValueView, Fault>(values[i]));
            match capture_list[i] {
                crate::offset::Capture::Local(offset) => {
                    assert(value_ok(program, plan, m.stack[m.stack_base + offset.0]));
                },
                crate::offset::Capture::Capture(offset) => {
                    assert(value_ok(program, plan, m.captures[offset.0 as int]));
                },
            }
        }
    }
}

/// A state that differs from a good state in its next instruction and in
/// its stack is good, if the stack holds good values and is as high as the
/// next instruction needs.
proof fn lemma_advance_ok(
    program: Seq<OpView>,
    plan: Seq<Spot>,
    m: MachineView,
    next_op: nat,
    stack: Seq<ValueView>,
)
    requires
        machine_ok(program, plan, m),
        next_op <= program.len(),
        plan[next_op as int].height + m.stack_base <= stack.len(),
        plan[next_op as int].inside == plan[m.next_op as int].inside,
        values_ok(program, plan, stack),
    ensures
        machine_ok(program, plan, MachineView { next_op, stack, ..m }),
{
    let next = MachineView { next_op, stack, ..m };
    assert forall|k: int| 0 <= k < next.call_stack.len() implies frame_ok(
        program,
        plan,
        #[trigger] next.call_stack[k],
        callee_base(next, k),
        k == 0,
    ) by {
        assert(frame_ok(program, plan, m.call_stack[k], callee_base(m, k), k == 0));
    }
}

/// A call from a good state leads to a good state.
proof fn lemma_call_ok(program: Seq<OpView>, plan: Seq<Spot>, m: MachineView)
    requires
        segment_safe(program, 0, plan),
        machine_ok(program, plan, m),
        m.next_op < program.len(),
        program[m.next_op as int] == OpView::Call,
    ensures
        step(program, m) matches Step::Next(next) ==> machine_ok(program, plan, next),
{
    assert(safe_at(program, 0, plan, m.next_op as int));
    if let Step::Next(next) = step(program, m) {
        let base = m.stack.len() - 2;
        assert(value_ok(program, plan, m.stack[base]));
        let n = m.call_stack.len() as int;
        assert forall|k: int| 0 <= k < next.call_stack.len() implies frame_ok(
            program,
            plan,
            #[trigger] next.call_stack[k],
            callee_base(next, k),
            k == 0,
        ) by {
            if k < n {
                assert(next.call_stack[k] == m.call_stack[k]);
                assert(frame_ok(program, plan, m.call_stack[k], callee_base(m, k), k == 0));
                if k + 1 < n {
                    assert(next.call_stack[k + 1] == m.call_stack[k + 1]);
                }
            }
        }
        match m.stack[base] {
            ValueView::Procedure { start, captures } => {
                lemma_procedure_ok(program, plan, start, captures);
            },
            _ => {},
        }
    }
}

/// A tail call from a good state leads to a good state.
proof fn lemma_tail_call_ok(program: Seq<OpView>, plan: Seq<Spot>, m: MachineView)
    requires
        segment_safe(program, 0, plan),
        machine_ok(program, plan, m),
        m.next_op < program.len(),
        program[m.next_op as int] == OpView::TailCall,
    ensures
        step(program, m) matches Step::Next(next) ==> machine_ok(program, plan, next),
{
    assert(safe_at(program, 0, plan, m.next_op as int));
    if let Step::Next(next) = step(program, m) {
        let len = m.stack.len() as int;
        let argument = m.stack[len - 1];
        let procedure = m.stack[len - 2];
        assert(value_ok(program, plan, argument));
        assert(value_ok(program, plan, procedure));
        lemma_values_take(program, plan, m.stack, len - 2);
        lemma_values_cut(program, plan, m.stack.take(len - 2), m.stack_base);
        let rest = cut(m.stack.take(len - 2), m.stack_base);
        lemma_values_push(program, plan, rest, procedure);
        lemma_values_push(program, plan, rest.push(procedure), argument);
        assert forall|k: int| 0 <= k < next.call_stack.len() implies frame_ok(
            program,
            plan,
            #[trigger] next.call_stack[k],
            callee_base(next, k),
            k == 0,
        ) by {
            assert(frame_ok(program, plan, m.call_stack[k], callee_base(m, k), k == 0));
        }
        match procedure {
            ValueView::Procedure { start, captures } => {
                lemma_procedure_ok(program, plan, start, captures);
            },
            _ => {},
        }
    }
}

/// A return from a good state leads to a good state.
proof fn lemma_return_ok(program: Seq<OpView>, plan: Seq<Spot>, m: MachineView)
    requires
        segment_safe(program, 0, plan),
        machine_ok(program, plan, m),
        m.next_op < program.len(),
        program[m.next_op as int] == OpView::Return,
    ensures
        step(program, m) matches Step::Next(next) ==> machine_ok(program, plan, next),
{
    assert(safe_at(program, 0, plan, m.next_op as int));
    if let Step::Next(next) = step(program, m) {
        let n = m.call_stack.len() as int;
        let frame = m.call_stack[n - 1];
        assert(frame_ok(program, plan, frame, callee_base(m, n - 1), n - 1 == 0));
        assert(value_ok(program, plan, m.stack.last()));
        lemma_values_cut(program, plan, m.stack, m.stack_base);
        lemma_values_push(program, plan, cut(m.stack, m.stack_base), m.stack.last());
        assert forall|k: int| 0 <= k < next.call_stack.len() implies frame_ok(
            program,
            plan,
            #[trigger] next.call_stack[k],
            callee_base(next, k),
            k == 0,
        ) by {
            assert(next.call_stack[k] == m.call_stack[k]);
            assert(frame_ok(program, plan, m.call_stack[k], callee_base(m, k), k == 0));
            if k + 1 < n - 1 {
                assert(next.call_stack[k + 1] == m.call_stack[k + 1]);
            }
        }
    }
}

/// Every step of a safe program leads from a good state to a good state.
pub proof fn lemma_step_ok(program: Seq<OpView>, plan: Seq<Spot>, m: MachineView)
    requires
        segment_safe(program, 0, plan),
        machine_ok(program, plan, m),
    ensures
        step(program, m) matches Step::Next(next) ==> machine_ok(program, plan, next),
{
    if m.next_op < program.len() {
        assert(safe_at(program, 0, plan, m.next_op as int));
        let next_op = (m.next_op + 1) as nat;
        if let Step::Next(next) = step(program, m) {
            match program[m.next_op as int] {
                OpView::Call => {
                    lemma_call_ok(program, plan, m);
                },
                OpView::TailCall => {
                    lemma_tail_call_ok(program, plan, m);
                },
                OpView::Return => {
                    lemma_return_ok(program, plan, m);
                },
                OpView::MakeProc(start, capture_list) => {
                    lemma_captures_ok(program, plan, m, capture_list);
                    let values = materialize(m, capture_list)->Ok_0;
                    let made = ValueView::Procedure { start, captures: values };
                    lemma_procedure_ok(program, plan, start, values);
                    lemma_values_push(program, plan, m.stack, made);
                    lemma_advance_ok(program, plan, m, next_op, m.stack.push(made));
                },
                OpView::PushValue(value) => {
                    lemma_values_push(program, plan, m.stack, value);
                    lemma_advance_ok(program, plan, m, next_op, m.stack.push(value));
                },
                OpView::PushCapture(offset) => {
                    let value = m.captures[offset.0 as int];
                    assert(value_ok(program, plan, value));
                    lemma_values_push(program, plan, m.stack, value);
                    lemma_advance_ok(program, plan, m, next_op, m.stack.push(value));
                },
                OpView::PushGlobal(offset) => {
                    let value = m.stack[offset.0 as int];
                    assert(value_ok(program, plan, value));
                    lemma_values_push(program, plan, m.stack, value);
                    lemma_advance_ok(program, plan, m, next_op, m.stack.push(value));
                },
                OpView::PushLocal(offset) => {
                    let value = m.stack[m.stack_base + offset.0];
                    assert(value_ok(program, plan, value));
                    lemma_values_push(program, plan, m.stack, value);
                    lemma_advance_ok(program, plan, m, next_op, m.stack.push(value));
                },
                OpView::Jump(target) => {
                    lemma_advance_ok(program, plan, m, target, m.stack);
                },
                _ => {
                    lemma_values_take(program, plan, m.stack, m.stack.len() - 1);
                    assert(m.stack.drop_last() =~= m.stack.take(m.stack.len() - 1));
                    let once = m.stack.drop_last();
                    if once.len() > 0 {
                        lemma_values_take(program, plan, once, once.len() - 1);
                        assert(once.drop_last() =~= once.take(once.len() - 1));
                    }
                    lemma_advance_ok(program, plan, m, next.next_op, next.stack);
                },
            }
        }
    }
}

/// Every state of a run of a safe program is good, if the program needs
/// nothing on the stack at its start.
pub proof fn lemma_run_ok(program: Seq<OpView>, plan: Seq<Spot>, n: nat)
    requires
        segment_safe(program, 0, plan),
        plan[0] == (Spot { height: 0, inside: false }),
    ensures
        reached(program, initial(), n) matches Some(m) ==> machine_ok(program, plan, m),
    decreases n,
{
    if n == 0 {
        lemma_initial_ok(program, plan);
    } else {
        lemma_run_ok(program, plan, (n - 1) as nat);
        if let Some(before) = reached(program, initial(), (n - 1) as nat) {
            lemma_step_ok(program, plan, before);
        }
    }
}

/// Making a procedure does not fail for want of values on the value stack
/// or of a caller.
proof fn lemma_materialize_fault(m: MachineView, capture_list: Seq<crate::offset::Capture>)
    ensures
        materialize(m, capture_list) != Err::<Seq<ValueView>, Fault>(Fault::StackUnderflow),
        materialize(m, capture_list) != Err::<Seq<ValueView>, Fault>(Fault::CallStackUnderflow),
    decreases capture_list.len(),
{
    if capture_list.len() > 0 {
        lemma_materialize_fault(m, capture_list.drop_last());
    }
}

/// In a good state the next instruction finds on the value stack as many
/// values as it takes, and a return finds a caller.
pub proof fn lemma_operands_there(program: Seq<OpView>, plan: Seq<Spot>, m: MachineView)
    requires
        segment_safe(program, 0, plan),
        machine_ok(program, plan, m),
    ensures
        step(program, m) != Step::Fault(Fault::StackUnderflow),
        step(program, m) != Step::Fault(Fault::CallStackUnderflow),
{
    if m.next_op < program.len() {
        assert(safe_at(program, 0, plan, m.next_op as int));
        match program[m.next_op as int] {
            OpView::MakeProc(_, capture_list) => {
                lemma_materialize_fault(m, capture_list);
            },
            OpView::Diff => {
                assert(m.stack.drop_last().len() >= 1);
            },
            _ => {},
        }
    }
}

/// A run of a safe program from a good state does not end for want of
/// values on the value stack or of a caller, if the program leaves a value
/// where it ends.
pub proof fn lemma_outcome_has_operands(
    program: Seq<OpView>,
    plan: Seq<Spot>,
    m: MachineView,
    budget: nat,
)
    requires
        segment_safe(program, 0, plan),
        machine_ok(program, plan, m),
        plan[program.len() as int].height >= 1,
    ensures
        outcome(program, m, budget) != Err::<ValueView, Fault>(Fault::StackUnderflow),
        outcome(program, m, budget) != Err::<ValueView, Fault>(Fault::CallStackUnderflow),
    decreases budget,
{
    lemma_operands_there(program, plan, m);
    lemma_step_ok(program, plan, m);
    if let Step::Next(next) = step(program, m) {
        if budget > 0 {
            lemma_outcome_has_operands(program, plan, next, (budget - 1) as nat);
        }
    }
}

} // verus!
