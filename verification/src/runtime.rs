//! A stack-based VM.
//!
//! `semantics` says what the machine does, as mathematics. This module holds
//! the machine that runs: `Machine::step` executes one instruction and is
//! proved to do what `semantics::step` says, and `run` drives a machine
//! until the program ends.

use std::rc::Rc;
use vstd::prelude::*;
use vstd::string::StringExecFns;
use crate::offset::{Capture, CaptureOffset, StackOffset};
use crate::runtime::semantics::{
    cut, fault_message, initial, materialize, outcome, pop_bool, pop_int, slot, step, Fault,
    FrameView, MachineView, OpView, Step, ValueView,
};
use crate::util::{append_decimal, append_signed_decimal, share, signed_decimal, decimal};

pub mod discipline;
pub mod frames;
pub mod semantics;

verus! {

/// An offset in a VM program.
#[derive(Copy, Clone, Debug, PartialEq, Eq)]
pub struct Address(pub usize);

impl Address {
    /// The instruction at this address, if the program has one there; the
    /// address then moves on to the next instruction.
    fn lookup<'a>(&mut self, program: &'a [Op]) -> (op: Option<&'a Op>)
        ensures
            old(self).0 < program@.len() ==> op == Some(&program@[old(self).0 as int])
                && final(self).0 == old(self).0 + 1,
            old(self).0 >= program@.len() ==> op is None && *final(self) == *old(self),
    {
        let address = self.0;
        if address < program.len() {
            self.0 = address + 1;
            Some(&program[address])
        } else {
            None
        }
    }
}

/// A procedure's location and captured environment.
#[derive(Debug, PartialEq)]
pub struct Procedure {
    pub start: Address,
    pub captures: Rc<Vec<Value>>,
}

impl Procedure {
    pub fn new(start: Address, captures: Vec<Value>) -> (procedure: Self)
        ensures
            procedure.start == start,
            procedure.captures@ == captures@,
    {
        let captures = Rc::new(captures);
        Self { start, captures }
    }

    /// The procedure as text: `<proc @` and its start address, then `>`.
    pub fn to_string(&self) -> (text: String)
        ensures
            text@ == "<proc @"@ + decimal(self.start.0 as nat) + ">"@,
    {
        let mut text = String::from_str("<proc @");
        append_decimal(&mut text, self.start.0 as u64);
        text.append(">");
        text
    }
}

/// Values to which expressions evaluate.
#[derive(Debug, PartialEq)]
pub enum Value {
    Integer(i64),
    Boolean(bool),
    Procedure(Rc<Procedure>),
}

/// The views of a sequence of values.
pub open spec fn models(values: Seq<Value>) -> Seq<ValueView>
    decreases values,
{
    Seq::new(
        values.len(),
        |i: int|
            if 0 <= i < values.len() {
                values[i].model()
            } else {
                ValueView::Boolean(false)
            },
    )
}

/// How a value is rendered: an integer in decimal, a Boolean as `true` or
/// `false`, a procedure as `<proc @` and its start address, then `>`.
pub open spec fn value_text(value: ValueView) -> Seq<char> {
    match value {
        ValueView::Integer(x) => signed_decimal(x as int),
        ValueView::Boolean(b) => if b {
            "true"@
        } else {
            "false"@
        },
        ValueView::Procedure { start, .. } => "<proc @"@ + decimal(start) + ">"@,
    }
}

impl Value {
    /// The value as a mathematical object.
    pub open spec fn model(&self) -> ValueView
        decreases self,
    {
        match self {
            Value::Integer(x) => ValueView::Integer(*x),
            Value::Boolean(b) => ValueView::Boolean(*b),
            Value::Procedure(p) => ValueView::Procedure {
                start: p.start.0 as nat,
                captures: models(p.captures@),
            },
        }
    }

    pub fn as_int(&self) -> (result: Result<i64, String>)
        ensures
            match self@ {
                ValueView::Integer(x) => result == Ok::<i64, String>(x),
                _ => result matches Err(message) && message@ == fault_message(
                    Fault::NotAnInteger,
                ),
            },
    {
        match self {
            Value::Integer(x) => Ok(*x),
            _ => Err(String::from_str("value is not an integer")),
        }
    }

    pub fn as_bool(&self) -> (result: Result<bool, String>)
        ensures
            match self@ {
                ValueView::Boolean(b) => result == Ok::<bool, String>(b),
                _ => result matches Err(message) && message@ == fault_message(
                    Fault::NotABoolean,
                ),
            },
    {
        match self {
            Value::Boolean(b) => Ok(*b),
            _ => Err(String::from_str("value is not a boolean")),
        }
    }

    pub fn as_proc(&self) -> (result: Result<&Procedure, String>)
        ensures
            match self {
                Value::Procedure(p) => result matches Ok(procedure) && *procedure == **p,
                _ => result matches Err(message) && message@ == fault_message(
                    Fault::NotAProcedure,
                ),
            },
    {
        match self {
            Value::Procedure(p) => Ok(p),
            _ => Err(String::from_str("value is not a procedure")),
        }
    }

    /// The value as text.
    pub fn to_string(&self) -> (text: String)
        ensures
            text@ == value_text(self@),
    {
        match self {
            Value::Integer(x) => {
                let mut text = String::new();
                append_signed_decimal(&mut text, *x);
                assert(text@ =~= signed_decimal(*x as int));
                text
            },
            Value::Boolean(b) => if *b {
                String::from_str("true")
            } else {
                String::from_str("false")
            },
            Value::Procedure(p) => p.to_string(),
        }
    }
}

impl View for Value {
    type V = ValueView;

    open spec fn view(&self) -> ValueView {
        self.model()
    }
}

/// A copy of a procedure shares the captures of the procedure that it was
/// copied from, so every copy of a value is the same value.
impl Clone for Value {
    fn clone(&self) -> (copy: Self)
        ensures
            copy == *self,
    {
        match self {
            Value::Integer(x) => Value::Integer(*x),
            Value::Boolean(b) => Value::Boolean(*b),
            Value::Procedure(p) => Value::Procedure(share(p)),
        }
    }
}

/// The VM's operations.
#[derive(Debug, PartialEq)]
pub enum Op {
    /// Pop a Boolean from the stack. If the value is false then halt execution
    /// and include the line number in the error message.
    Assert { line: usize },
    /// Call a procedure. Call expects two values on the stack: at the top an
    /// argument and next a procedure. Save the current op index, frame base
    /// and captures to the call stack, then set the instruction index and
    /// captures to the procedure's start and captures, respectively.
    Call,
    /// Pop two numbers from the stack, subtract them, and push the difference
    /// onto the stack.
    Diff,
    /// Pop a number from the stack. If the popped value is zero then push
    /// `true` onto the stack, otherwise push `false`.
    IsZero,
    /// Unconditionally jump to an index.
    Jump(Address),
    /// Pop a Boolean from the stack. If the popped value is `true` then jump to
    /// an index.
    JumpTrue(Address),
    /// Make a procedure using a start index and the values that the captures
    /// name. Push the procedure onto the stack.
    MakeProc(Address, Vec<Capture>),
    /// Negates the top of the stack.
    Negate,
    /// Pushes a captured value onto the stack.
    PushCapture(CaptureOffset),
    /// Pushes a slot of the outermost frame onto the stack.
    PushGlobal(StackOffset),
    /// Pushes a slot of the current frame onto the stack.
    PushLocal(StackOffset),
    /// Push a value onto the stack.
    PushValue(Value),
    /// Return from a procedure. The value on top of the stack replaces the
    /// frame, and the caller's op index, frame base and captures are restored
    /// from the call stack.
    Return,
    /// Call a procedure in place of the current frame.
    TailCall,
}

impl View for Op {
    type V = OpView;

    open spec fn view(&self) -> OpView {
        match self {
            Op::Assert { line } => OpView::Assert { line: *line },
            Op::Call => OpView::Call,
            Op::Diff => OpView::Diff,
            Op::IsZero => OpView::IsZero,
            Op::Jump(target) => OpView::Jump(target.0 as nat),
            Op::JumpTrue(target) => OpView::JumpTrue(target.0 as nat),
            Op::MakeProc(start, captures) => OpView::MakeProc(start.0 as nat, captures@),
            Op::Negate => OpView::Negate,
            Op::PushCapture(offset) => OpView::PushCapture(*offset),
            Op::PushGlobal(offset) => OpView::PushGlobal(*offset),
            Op::PushLocal(offset) => OpView::PushLocal(*offset),
            Op::PushValue(value) => OpView::PushValue(value@),
            Op::Return => OpView::Return,
            Op::TailCall => OpView::TailCall,
        }
    }
}

/// The views of a sequence of instructions.
pub open spec fn code(ops: Seq<Op>) -> Seq<OpView> {
    Seq::new(ops.len(), |i: int| ops[i]@)
}

/// What a call saves of its caller.
struct Frame {
    next_op: Address,
    stack_base: StackOffset,
    captures: Rc<Vec<Value>>,
}

impl View for Frame {
    type V = FrameView;

    closed spec fn view(&self) -> FrameView {
        FrameView {
            next_op: self.next_op.0 as nat,
            stack_base: self.stack_base.0 as nat,
            captures: models(self.captures@),
        }
    }
}

impl Frame {
    fn new(next_op: Address, stack_base: StackOffset, captures: Rc<Vec<Value>>) -> (frame: Self)
        ensures
            frame.next_op == next_op,
            frame.stack_base == stack_base,
            frame.captures == captures,
    {
        Self { next_op, stack_base, captures }
    }
}

/// The views of a sequence of frames.
spec fn frames(call_stack: Seq<Frame>) -> Seq<FrameView> {
    Seq::new(call_stack.len(), |i: int| call_stack[i]@)
}

/// A stack of Value objects.
struct ValueStack {
    stack: Vec<Value>,
}

impl View for ValueStack {
    type V = Seq<ValueView>;

    closed spec fn view(&self) -> Seq<ValueView> {
        models(self.stack@)
    }
}

impl ValueStack {
    fn new() -> (stack: Self)
        ensures
            stack@ == Seq::<ValueView>::empty(),
    {
        let stack = Vec::new();
        assert(models(stack@) =~= Seq::<ValueView>::empty());
        Self { stack }
    }

    fn len(&self) -> (n: usize)
        ensures
            n == self@.len(),
    {
        self.stack.len()
    }

    fn pop(&mut self) -> (result: Result<Value, Fault>)
        ensures
            old(self)@.len() == 0 ==> result == Err::<Value, Fault>(Fault::StackUnderflow),
            old(self)@.len() > 0 ==> (result matches Ok(value) && value@ == old(self)@.last()
                && final(self)@ == old(self)@.drop_last()),
    {
        if let Some(value) = self.stack.pop() {
            assert(self@ =~= old(self)@.drop_last());
            Ok(value)
        } else {
            Err(Fault::StackUnderflow)
        }
    }

    fn pop_bool(&mut self) -> (result: Result<bool, Fault>)
        ensures
            match pop_bool(old(self)@) {
                Ok((holds, rest)) => result == Ok::<bool, Fault>(holds) && final(self)@ == rest,
                Err(fault) => result == Err::<bool, Fault>(fault),
            },
    {
        match self.pop()? {
            Value::Boolean(holds) => Ok(holds),
            _ => Err(Fault::NotABoolean),
        }
    }

    fn pop_int(&mut self) -> (result: Result<i64, Fault>)
        ensures
            match pop_int(old(self)@) {
                Ok((x, rest)) => result == Ok::<i64, Fault>(x) && final(self)@ == rest,
                Err(fault) => result == Err::<i64, Fault>(fault),
            },
    {
        match self.pop()? {
            Value::Integer(x) => Ok(x),
            _ => Err(Fault::NotAnInteger),
        }
    }

    /// Drops what lies at `base` and above.
    fn pop_to(&mut self, base: StackOffset)
        ensures
            final(self)@ == cut(old(self)@, base.0 as nat),
    {
        self.stack.truncate(base.0);
        assert(self@ =~= cut(old(self)@, base.0 as nat));
    }

    fn push(&mut self, value: Value)
        ensures
            final(self)@ == old(self)@.push(value@),
    {
        self.stack.push(value);
        assert(self@ =~= old(self)@.push(value@));
    }

    /// The value in the slot `offset` above `base`.
    fn value_at(&self, base: StackOffset, offset: StackOffset) -> (result: Result<&Value, Fault>)
        ensures
            match slot(self@, base.0 + offset.0) {
                Ok(expected) => result matches Ok(value) && value@ == expected,
                Err(fault) => result == Err::<&Value, Fault>(fault),
            },
    {
        let len = self.stack.len();
        if base.0 < len && offset.0 < len - base.0 {
            Ok(&self.stack[base.0 + offset.0])
        } else {
            Err(Fault::StackOutOfRange)
        }
    }
}

/// A fault of a capture in a prefix of the list is the fault of the list.
proof fn lemma_materialize_fault(m: MachineView, captures: Seq<Capture>, n: int)
    requires
        0 <= n <= captures.len(),
        materialize(m, captures.take(n)) is Err,
    ensures
        materialize(m, captures) == materialize(m, captures.take(n)),
    decreases captures.len() - n,
{
    if n < captures.len() {
        assert(captures.take(n + 1).drop_last() =~= captures.take(n));
        lemma_materialize_fault(m, captures, n + 1);
    } else {
        assert(captures.take(n) =~= captures);
    }
}

/// A machine: the state of a run.
pub struct Machine {
    /// The address of the next instruction.
    next_op: Address,
    /// The value stack.
    stack: ValueStack,
    /// Where in the value stack the current frame begins.
    stack_base: StackOffset,
    /// What the current procedure captured.
    captures: Rc<Vec<Value>>,
    /// The callers that wait for a return.
    call_stack: Vec<Frame>,
}

impl View for Machine {
    type V = MachineView;

    closed spec fn view(&self) -> MachineView {
        MachineView {
            next_op: self.next_op.0 as nat,
            stack: self.stack@,
            stack_base: self.stack_base.0 as nat,
            captures: models(self.captures@),
            call_stack: frames(self.call_stack@),
        }
    }
}

impl Fault {
    /// The fault as an error message.
    pub fn message(&self) -> (text: String)
        ensures
            text@ == fault_message(*self),
    {
        match self {
            Fault::NotAnInteger => String::from_str("value is not an integer"),
            Fault::NotABoolean => String::from_str("value is not a boolean"),
            Fault::NotAProcedure => String::from_str("value is not a procedure"),
            Fault::StackUnderflow => String::from_str("stack underflow"),
            Fault::CallStackUnderflow => String::from_str("call stack underflow"),
            Fault::StackOutOfRange => String::from_str("stack offset out of range"),
            Fault::CaptureOutOfRange => String::from_str("capture offset out of range"),
            Fault::AssertFailed { line } => {
                let mut text = String::from_str("Assert at line ");
                append_decimal(&mut text, *line as u64);
                text
            },
            Fault::OutOfSteps => String::from_str("out of steps"),
        }
    }
}

impl Machine {
    /// A machine at the start of a run: nothing on its stacks, the first
    /// instruction next.
    pub fn new() -> (machine: Self)
        ensures
            machine@ == initial(),
    {
        let captures: Vec<Value> = Vec::new();
        let call_stack: Vec<Frame> = Vec::new();
        assert(models(captures@) =~= Seq::<ValueView>::empty());
        assert(frames(call_stack@) =~= Seq::<FrameView>::empty());
        Machine {
            next_op: Address(0),
            stack: ValueStack::new(),
            stack_base: StackOffset(0),
            captures: Rc::new(captures),
            call_stack,
        }
    }

    /// The number of callers that wait for a return.
    pub fn call_depth(&self) -> (depth: usize)
        ensures
            depth == self@.call_stack.len(),
    {
        self.call_stack.len()
    }

    /// The number of values on the value stack.
    pub fn stack_len(&self) -> (len: usize)
        ensures
            len == self@.stack.len(),
    {
        self.stack.len()
    }

    /// Where in the value stack the current frame begins.
    pub fn frame_base(&self) -> (base: usize)
        ensures
            base == self@.stack_base,
    {
        self.stack_base.0
    }

    /// The address of the next instruction.
    pub fn next_address(&self) -> (address: usize)
        ensures
            address == self@.next_op,
    {
        self.next_op.0
    }

    /// The value on top of the stack: the result, once the program has ended.
    pub fn top(&self) -> (result: Result<Value, Fault>)
        ensures
            self@.stack.len() == 0 ==> result == Err::<Value, Fault>(Fault::StackUnderflow),
            self@.stack.len() > 0 ==> (result matches Ok(value) && value@
                == self@.stack.last()),
    {
        let len = self.stack.len();
        if len == 0 {
            Err(Fault::StackUnderflow)
        } else {
            match self.stack.value_at(StackOffset(len - 1), StackOffset(0)) {
                Ok(value) => Ok(value.clone()),
                Err(fault) => Err(fault),
            }
        }
    }

    /// The values that a procedure made now captures for `captures`.
    fn materialize(&self, captures: &Vec<Capture>) -> (result: Result<Vec<Value>, Fault>)
        ensures
            match materialize(self@, captures@) {
                Ok(expected) => result matches Ok(values) && models(values@) == expected,
                Err(fault) => result == Err::<Vec<Value>, Fault>(fault),
            },
    {
        let mut values: Vec<Value> = Vec::new();
        let mut i: usize = 0;
        assert(captures@.take(0) =~= Seq::<Capture>::empty());
        assert(models(values@) =~= Seq::<ValueView>::empty());
        while i < captures.len()
            invariant
                i <= captures@.len(),
                materialize(self@, captures@.take(i as int)) == Ok::<Seq<ValueView>, Fault>(
                    models(values@),
                ),
            decreases captures@.len() - i,
        {
            proof {
                assert(captures@.take(i + 1).drop_last() =~= captures@.take(i as int));
                assert(captures@.take(i + 1).last() == captures@[i as int]);
            }
            let found = match captures[i] {
                Capture::Local(offset) => match self.stack.value_at(self.stack_base, offset) {
                    Ok(value) => Ok(value.clone()),
                    Err(fault) => Err(fault),
                },
                Capture::Capture(CaptureOffset(offset)) => if offset < self.captures.len() {
                    Ok(self.captures[offset].clone())
                } else {
                    Err(Fault::CaptureOutOfRange)
                },
            };
            match found {
                Ok(value) => {
                    assert(models(values@.push(value)) =~= models(values@).push(value@));
                    values.push(value);
                },
                Err(fault) => {
                    proof {
                        lemma_materialize_fault(self@, captures@, i + 1);
                    }
                    return Err(fault);
                },
            }
            i += 1;
        }
        assert(captures@.take(i as int) =~= captures@);
        Ok(values)
    }

    /// Executes the next instruction of `program`.
    ///
    /// Returns `Ok(true)` when an instruction was executed and `Ok(false)`
    /// when the program has ended, which leaves the machine as it was. After
    /// a fault the machine is of no further use.
    pub fn step(&mut self, program: &[Op]) -> (result: Result<bool, Fault>)
        ensures
            match step(code(program@), old(self)@) {
                Step::Halt => result == Ok::<bool, Fault>(false) && final(self)@ == old(self)@,
                Step::Next(next) => result == Ok::<bool, Fault>(true) && final(self)@ == next,
                Step::Fault(fault) => result == Err::<bool, Fault>(fault),
            },
    {
        let mut cursor = self.next_op;
        let op = match cursor.lookup(program) {
            Some(op) => op,
            None => {
                return Ok(false);
            },
        };
        assert(code(program@)[old(self)@.next_op as int] == op@);
        match op {
            Op::Assert { line } => {
                if !self.stack.pop_bool()? {
                    return Err(Fault::AssertFailed { line: *line });
                }
                self.next_op = cursor;
            },
            Op::Call => {
                let len = self.stack.len();
                if len < 2 {
                    return Err(Fault::StackUnderflow);
                }
                let base = StackOffset(len - 2);
                let (start, mut captures) = match self.stack.value_at(base, StackOffset(0)) {
                    Ok(Value::Procedure(p)) => (p.start, share(&p.captures)),
                    _ => {
                        return Err(Fault::NotAProcedure);
                    },
                };
                std::mem::swap(&mut self.captures, &mut captures);
                let calling_frame = Frame::new(cursor, self.stack_base, captures);
                assert(frames(self.call_stack@.push(calling_frame)) =~= frames(
                    self.call_stack@,
                ).push(calling_frame@));
                self.call_stack.push(calling_frame);
                self.stack_base = base;
                self.next_op = start;
            },
            Op::Diff => {
                let x2 = self.stack.pop_int()?;
                let x1 = self.stack.pop_int()?;
                let v = Value::Integer(x1.wrapping_sub(x2));
                self.stack.push(v);
                self.next_op = cursor;
            },
            Op::IsZero => {
                let x = self.stack.pop_int()?;
                let v = Value::Boolean(x == 0);
                self.stack.push(v);
                self.next_op = cursor;
            },
            Op::Jump(address) => {
                self.next_op = *address;
            },
            Op::JumpTrue(address) => {
                if self.stack.pop_bool()? {
                    self.next_op = *address;
                } else {
                    self.next_op = cursor;
                }
            },
            Op::MakeProc(start, capture_ops) => {
                let proc_captures = self.materialize(capture_ops)?;
                let proc = Procedure::new(*start, proc_captures);
                let proc = Rc::new(proc);
                let value = Value::Procedure(proc);
                self.stack.push(value);
                self.next_op = cursor;
            },
            Op::Negate => {
                let i = self.stack.pop_int()?;
                let v = Value::Integer(0i64.wrapping_sub(i));
                self.stack.push(v);
                self.next_op = cursor;
            },
            Op::PushCapture(CaptureOffset(capture_offset)) => {
                if *capture_offset >= self.captures.len() {
                    return Err(Fault::CaptureOutOfRange);
                }
                let v = self.captures[*capture_offset].clone();
                self.stack.push(v);
                self.next_op = cursor;
            },
            Op::PushGlobal(stack_offset) => {
                let v = self.stack.value_at(*stack_offset, StackOffset(0))?.clone();
                self.stack.push(v);
                self.next_op = cursor;
            },
            Op::PushLocal(offset) => {
                let v = self.stack.value_at(self.stack_base, *offset)?.clone();
                self.stack.push(v);
                self.next_op = cursor;
            },
            Op::PushValue(value) => {
                self.stack.push(value.clone());
                self.next_op = cursor;
            },
            Op::Return => {
                let return_value = self.top()?;
                self.stack.pop_to(self.stack_base);
                self.stack.push(return_value);
                let Some(frame) = self.call_stack.pop() else {
                    return Err(Fault::CallStackUnderflow);
                };
                assert(frames(self.call_stack@) =~= frames(old(self).call_stack@).drop_last());
                self.next_op = frame.next_op;
                self.stack_base = frame.stack_base;
                self.captures = frame.captures;
            },
            Op::TailCall => {
                let argument = self.stack.pop()?;
                let proc = self.stack.pop()?;
                assert(self.stack@ =~= old(self)@.stack.take(old(self)@.stack.len() - 2));
                // Cleanup stack frame.
                self.stack.pop_to(self.stack_base);
                // Set up a jump to procedure.
                match &proc {
                    Value::Procedure(p) => {
                        self.next_op = p.start;
                        self.captures = share(&p.captures);
                    },
                    _ => {
                        return Err(Fault::NotAProcedure);
                    },
                }
                // Setup stack so it looks like the proc was called instead of
                // jumped to.
                self.stack.push(proc);
                self.stack.push(argument);
            },
        }
        Ok(true)
    }
}

/// Run a VM program returning the final value on the stack.
///
/// The run ends with the value on top of the stack when the instruction
/// pointer leaves the program, and with the message of the fault when an
/// instruction cannot be executed. A run may take `u64::MAX` steps.
pub fn run(program: &[Op]) -> (result: Result<Value, String>)
    ensures
        match outcome(code(program@), initial(), u64::MAX as nat) {
            Ok(expected) => result matches Ok(value) && value@ == expected,
            Err(fault) => result matches Err(message) && message@ == fault_message(fault),
        },
{
    let mut machine = Machine::new();
    let mut budget: u64 = u64::MAX;
    loop
        invariant
            outcome(code(program@), initial(), u64::MAX as nat) == outcome(
                code(program@),
                machine@,
                budget as nat,
            ),
        decreases budget,
    {
        match machine.step(program) {
            Err(fault) => {
                return Err(fault.message());
            },
            Ok(false) => {
                return match machine.top() {
                    Ok(value) => Ok(value),
                    Err(fault) => Err(fault.message()),
                };
            },
            Ok(true) => {
                if budget == 0 {
                    return Err(Fault::OutOfSteps.message());
                }
                budget -= 1;
            },
        }
    }
}

} // verus!
