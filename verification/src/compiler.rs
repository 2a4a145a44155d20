//! A bytecode compiler.
//!
//! `emit` says which instructions an expression compiles to; `compile`
//! produces them.

use vstd::prelude::*;
use crate::ast::nameless::{Expr, ExprView, Program};
use crate::runtime::semantics::{OpView, ValueView};
use crate::runtime::{code, Address, Op, Value};

pub mod discipline;
pub mod layout;

use crate::compiler::layout::{all_land_within, ends_in_branch, lemma_addresses_land};

verus! {

/// Whether the value of an expression is the value of the procedure body
/// that it stands in.
#[derive(Copy, Clone, PartialEq, Eq, Structural, Debug)]
pub enum ExprPos {
    /// The value is consumed by an operation.
    Operand,
    /// The value is the result of the enclosing body.
    Tail,
}

/// Whether an expression stands in a procedure.
#[derive(Copy, Clone, PartialEq, Eq, Structural, Debug)]
pub enum Scope {
    /// Outside every procedure.
    Global,
    /// In the body of a procedure.
    Local,
}

/// The call instruction for a call in the given place: a call that is the
/// last thing a procedure does takes the place of its frame.
pub open spec fn call_op(scope: Scope, position: ExprPos) -> OpView {
    if scope == Scope::Local && position == ExprPos::Tail {
        OpView::TailCall
    } else {
        OpView::Call
    }
}

/// The instructions for `expr`, where the first of them gets the address
/// `at`.
pub open spec fn emit(expr: ExprView, scope: Scope, position: ExprPos, at: nat) -> Seq<OpView>
    decreases expr,
{
    match expr {
        ExprView::LiteralInt(value) => seq![OpView::PushValue(ValueView::Integer(value))],
        ExprView::LiteralBool(value) => seq![OpView::PushValue(ValueView::Boolean(value))],
        ExprView::Local(offset) => seq![OpView::PushLocal(offset)],
        ExprView::Capture(offset) => seq![OpView::PushCapture(offset)],
        ExprView::Global(offset) => seq![OpView::PushGlobal(offset)],
        ExprView::Subtract { left, right } => {
            let left = emit(*left, scope, ExprPos::Operand, at);
            let right = emit(*right, scope, ExprPos::Operand, at + left.len());
            left + right + seq![OpView::Diff]
        },
        ExprView::Negate(inner) => emit(*inner, scope, ExprPos::Operand, at) + seq![
            OpView::Negate,
        ],
        ExprView::IsZero(inner) => emit(*inner, scope, ExprPos::Operand, at) + seq![
            OpView::IsZero,
        ],
        ExprView::Assert { line, test, body } => {
            let test = emit(*test, scope, ExprPos::Operand, at);
            let body = emit(*body, scope, position, at + test.len() + 1);
            test + seq![OpView::Assert { line }] + body
        },
        // The test, a jump to the consequent if it holds, the alternate, a
        // jump over the consequent, the consequent.
        ExprView::If { test, consequent, alternate } => {
            let test = emit(*test, scope, ExprPos::Operand, at);
            let alternate = emit(*alternate, scope, position, at + test.len() + 1);
            let consequent_start = at + test.len() + 1 + alternate.len() + 1;
            let consequent = emit(*consequent, scope, position, consequent_start);
            test + seq![OpView::JumpTrue(consequent_start)] + alternate + seq![
                OpView::Jump(consequent_start + consequent.len()),
            ] + consequent
        },
        ExprView::Let { expr, body } => {
            let expr = emit(*expr, scope, ExprPos::Operand, at);
            expr + emit(*body, scope, position, at + expr.len())
        },
        ExprView::Call { proc, arg } => {
            let proc = emit(*proc, scope, ExprPos::Operand, at);
            let arg = emit(*arg, scope, ExprPos::Operand, at + proc.len());
            proc + arg + seq![call_op(scope, position)]
        },
        // A jump over the body, the body with its return, and the
        // instruction that makes the procedure, to which the jump leads.
        ExprView::Proc { body, captures } => {
            let body = emit(*body, Scope::Local, ExprPos::Tail, at + 1);
            seq![OpView::Jump(at + 1 + body.len() + 1)] + body + seq![
                OpView::Return,
                OpView::MakeProc(at + 1, captures),
            ]
        },
    }
}

/// A VM program under construction.
pub struct Chunk {
    pub ops: Vec<Op>,
}

impl View for Chunk {
    type V = Seq<OpView>;

    open spec fn view(&self) -> Seq<OpView> {
        code(self.ops@)
    }
}

/// The instruction `op` with its target replaced, if it is a jump.
pub open spec fn retarget(op: OpView, target: nat) -> OpView {
    match op {
        OpView::Jump(_) => OpView::Jump(target),
        OpView::JumpTrue(_) => OpView::JumpTrue(target),
        _ => op,
    }
}

impl Chunk {
    pub fn new() -> (chunk: Self)
        ensures
            chunk@ == Seq::<OpView>::empty(),
    {
        let ops = Vec::new();
        assert(code(ops@) =~= Seq::<OpView>::empty());
        Chunk { ops }
    }

    /// Appends an instruction, and gives its address.
    pub fn emit(&mut self, op: Op) -> (address: Address)
        ensures
            final(self)@ == old(self)@.push(op@),
            address.0 == old(self)@.len(),
    {
        self.ops.push(op);
        assert(self@ =~= old(self)@.push(op@));
        Address(self.ops.len() - 1)
    }

    /// The address that the next instruction will get.
    pub fn next_address(&self) -> (address: Address)
        ensures
            address.0 == self@.len(),
    {
        Address(self.ops.len())
    }

    /// Gives the jump at `patch_at` the target `target`. Any other
    /// instruction stays as it is.
    pub fn patch(&mut self, patch_at: Address, target: Address)
        requires
            patch_at.0 < old(self)@.len(),
        ensures
            final(self)@ == old(self)@.update(
                patch_at.0 as int,
                retarget(old(self)@[patch_at.0 as int], target.0 as nat),
            ),
    {
        let Address(patch_at) = patch_at;
        match &self.ops[patch_at] {
            Op::Jump(_) => {
                self.ops[patch_at] = Op::Jump(target);
            },
            Op::JumpTrue(_) => {
                self.ops[patch_at] = Op::JumpTrue(target);
            },
            _ => (),
        }
        assert(self@ =~= old(self)@.update(
            patch_at as int,
            retarget(old(self)@[patch_at as int], target.0 as nat),
        ));
    }
}

/// Patching the two jumps of a conditional gives the instructions of the
/// conditional.
proof fn lemma_patched_if(
    before: Seq<OpView>,
    test: Seq<OpView>,
    alternate: Seq<OpView>,
    consequent: Seq<OpView>,
    start: nat,
    end: nat,
)
    ensures
        ({
            let raw = (((before + test).push(OpView::JumpTrue(0)) + alternate).push(
                OpView::Jump(0),
            ) + consequent);
            let first = (before.len() + test.len()) as int;
            let second = first + 1 + alternate.len();
            let once = raw.update(first, retarget(raw[first], start));
            once.update(second, retarget(once[second], end))
        }) == before + (test + seq![OpView::JumpTrue(start)] + alternate + seq![OpView::Jump(end)]
            + consequent),
{
    let raw = (((before + test).push(OpView::JumpTrue(0)) + alternate).push(OpView::Jump(0))
        + consequent);
    let first = (before.len() + test.len()) as int;
    let second = first + 1 + alternate.len();
    assert(raw[first] == OpView::JumpTrue(0));
    let once = raw.update(first, retarget(raw[first], start));
    assert(once[second] == OpView::Jump(0));
    assert(once.update(second, retarget(once[second], end)) =~= before + (test + seq![
        OpView::JumpTrue(start),
    ] + alternate + seq![OpView::Jump(end)] + consequent));
}

/// Patching the jump over a procedure's body gives the instructions of the
/// procedure.
proof fn lemma_patched_proc(
    before: Seq<OpView>,
    body: Seq<OpView>,
    make: OpView,
    target: nat,
)
    ensures
        ({
            let raw = (before.push(OpView::Jump(0)) + body).push(OpView::Return).push(make);
            raw.update(before.len() as int, retarget(raw[before.len() as int], target))
        }) == before + (seq![OpView::Jump(target)] + body + seq![OpView::Return, make]),
{
    let raw = (before.push(OpView::Jump(0)) + body).push(OpView::Return).push(make);
    assert(raw[before.len() as int] == OpView::Jump(0));
    assert(raw.update(before.len() as int, retarget(raw[before.len() as int], target)) =~= before
        + (seq![OpView::Jump(target)] + body + seq![OpView::Return, make]));
}

/// Compiles a program to VM instructions.
///
/// Every jump of the compiled program leads to an instruction of the
/// program or to its end, and every procedure starts at an instruction of
/// the program. No jump leads to the end unless the program ends with a
/// branch of a conditional.
pub fn compile(program: &Program) -> (result: Result<Vec<Op>, String>)
    ensures
        result matches Ok(ops) && {
            &&& code(ops@) == emit(program@, Scope::Global, ExprPos::Tail, 0)
            &&& all_land_within(code(ops@), 0, ops@.len())
            &&& !ends_in_branch(program@) ==> all_land_within(
                code(ops@),
                0,
                (ops@.len() - 1) as nat,
            )
        },
{
    proof {
        lemma_addresses_land(program@, Scope::Global, ExprPos::Tail, 0);
    }
    let mut chunk = Chunk::new();
    compile_expr(&program.expr, Scope::Global, ExprPos::Tail, &mut chunk)?;
    Ok(chunk.ops)
}

/// One instruction after what was there.
proof fn lemma_one(before: Seq<OpView>, op: OpView)
    ensures
        before.push(op) == before + seq![op],
{
    assert(before.push(op) =~= before + seq![op]);
}

/// Code and one instruction after what was there.
proof fn lemma_code_op(before: Seq<OpView>, code: Seq<OpView>, op: OpView)
    ensures
        (before + code).push(op) == before + (code + seq![op]),
{
    assert((before + code).push(op) =~= before + (code + seq![op]));
}

/// Two pieces of code after what was there.
proof fn lemma_code_code(before: Seq<OpView>, first: Seq<OpView>, second: Seq<OpView>)
    ensures
        (before + first) + second == before + (first + second),
{
    assert((before + first) + second =~= before + (first + second));
}

/// Two pieces of code and one instruction after what was there.
proof fn lemma_code_code_op(
    before: Seq<OpView>,
    first: Seq<OpView>,
    second: Seq<OpView>,
    op: OpView,
)
    ensures
        ((before + first) + second).push(op) == before + (first + second + seq![op]),
{
    assert(((before + first) + second).push(op) =~= before + (first + second + seq![op]));
}

/// Code, one instruction and more code after what was there.
proof fn lemma_code_op_code(
    before: Seq<OpView>,
    first: Seq<OpView>,
    op: OpView,
    second: Seq<OpView>,
)
    ensures
        (before + first).push(op) + second == before + (first + seq![op] + second),
{
    assert((before + first).push(op) + second =~= before + (first + seq![op] + second));
}

#[verifier::rlimit(30)]
fn compile_expr(expr: &Expr, scope: Scope, expr_pos: ExprPos, chunk: &mut Chunk) -> (result: Result<
    (),
    String,
>)
    ensures
        result is Ok,
        final(chunk)@ == old(chunk)@ + emit(expr@, scope, expr_pos, old(chunk)@.len()),
    decreases expr,
{
    let ghost before = chunk@;
    let ghost at = chunk@.len();
    match expr {
        Expr::Assert { line, test, body } => {
            compile_expr(test, scope, ExprPos::Operand, chunk)?;
            chunk.emit(Op::Assert { line: *line });
            compile_expr(body, scope, expr_pos, chunk)?;
            proof {
                let test = emit(test@, scope, ExprPos::Operand, at);
                let body = emit(body@, scope, expr_pos, at + test.len() + 1);
                lemma_code_op_code(before, test, OpView::Assert { line: *line }, body);
            }
        },
        Expr::Capture(capture_offset) => {
            chunk.emit(Op::PushCapture(*capture_offset));
            proof {
                lemma_one(before, OpView::PushCapture(*capture_offset));
            }
        },
        Expr::Call { proc, arg } => {
            compile_expr(proc, scope, ExprPos::Operand, chunk)?;
            compile_expr(arg, scope, ExprPos::Operand, chunk)?;
            if scope == Scope::Local && expr_pos == ExprPos::Tail {
                chunk.emit(Op::TailCall);
            } else {
                chunk.emit(Op::Call);
            }
            proof {
                let proc = emit(proc@, scope, ExprPos::Operand, at);
                let arg = emit(arg@, scope, ExprPos::Operand, at + proc.len());
                lemma_code_code_op(before, proc, arg, call_op(scope, expr_pos));
            }
        },
        Expr::LiteralInt(x) => {
            let v = Value::Integer(*x);
            chunk.emit(Op::PushValue(v));
            proof {
                lemma_one(before, OpView::PushValue(ValueView::Integer(*x)));
            }
        },
        Expr::Subtract { left, right } => {
            compile_expr(left, scope, ExprPos::Operand, chunk)?;
            compile_expr(right, scope, ExprPos::Operand, chunk)?;
            chunk.emit(Op::Diff);
            proof {
                let left = emit(left@, scope, ExprPos::Operand, at);
                let right = emit(right@, scope, ExprPos::Operand, at + left.len());
                lemma_code_code_op(before, left, right, OpView::Diff);
            }
        },
        Expr::Negate(expr) => {
            compile_expr(expr, scope, ExprPos::Operand, chunk)?;
            chunk.emit(Op::Negate);
            proof {
                lemma_code_op(before, emit(expr@, scope, ExprPos::Operand, at), OpView::Negate);
            }
        },
        Expr::Global(stack_offset) => {
            chunk.emit(Op::PushGlobal(*stack_offset));
            proof {
                lemma_one(before, OpView::PushGlobal(*stack_offset));
            }
        },
        Expr::If { test, consequent, alternate } => {
            compile_expr(test, scope, ExprPos::Operand, chunk)?;
            let branch_to_consq = chunk.emit(Op::JumpTrue(Address(0)));
            compile_expr(alternate, scope, expr_pos, chunk)?;
            let branch_to_end = chunk.emit(Op::Jump(Address(0)));
            let consq_start = chunk.next_address();
            compile_expr(consequent, scope, expr_pos, chunk)?;
            let if_end = chunk.next_address();
            chunk.patch(branch_to_consq, consq_start);
            chunk.patch(branch_to_end, if_end);
            proof {
                let test = emit(test@, scope, ExprPos::Operand, at);
                let alternate = emit(alternate@, scope, expr_pos, at + test.len() + 1);
                let start = at + test.len() + 1 + alternate.len() + 1;
                let consequent = emit(consequent@, scope, expr_pos, start);
                lemma_patched_if(
                    before,
                    test,
                    alternate,
                    consequent,
                    start,
                    start + consequent.len(),
                );
            }
        },
        Expr::IsZero(e) => {
            compile_expr(e, scope, ExprPos::Operand, chunk)?;
            chunk.emit(Op::IsZero);
            proof {
                lemma_code_op(before, emit(e@, scope, ExprPos::Operand, at), OpView::IsZero);
            }
        },
        Expr::Let { expr, body } => {
            compile_expr(expr, scope, ExprPos::Operand, chunk)?;
            compile_expr(body, scope, expr_pos, chunk)?;
            proof {
                let expr = emit(expr@, scope, ExprPos::Operand, at);
                lemma_code_code(before, expr, emit(body@, scope, expr_pos, at + expr.len()));
            }
        },
        Expr::LiteralBool(value) => {
            chunk.emit(Op::PushValue(Value::Boolean(*value)));
            proof {
                lemma_one(before, OpView::PushValue(ValueView::Boolean(*value)));
            }
        },
        Expr::Local(stack_offset) => {
            chunk.emit(Op::PushLocal(*stack_offset));
            proof {
                lemma_one(before, OpView::PushLocal(*stack_offset));
            }
        },
        Expr::Proc { body, captures } => {
            let branch_make_proc = chunk.emit(Op::Jump(Address(0)));
            let start = chunk.next_address();
            compile_expr(body, Scope::Local, ExprPos::Tail, chunk)?;
            chunk.emit(Op::Return);
            let captures = captures.clone();
            let make_proc_index = chunk.emit(Op::MakeProc(start, captures));
            chunk.patch(branch_make_proc, make_proc_index);
            proof {
                let body = emit(body@, Scope::Local, ExprPos::Tail, at + 1);
                lemma_patched_proc(
                    before,
                    body,
                    OpView::MakeProc(at + 1, captures@),
                    at + 1 + body.len() + 1,
                );
            }
        },
    }
    Ok(())
}

} // verus!
