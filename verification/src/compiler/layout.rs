//! How compiled code is laid out: where its jumps lead, and what moving an
//! expression to another address does to its code.

use vstd::prelude::*;
use crate::ast::nameless::ExprView;
use crate::compiler::{emit, ExprPos, Scope};
use crate::runtime::semantics::OpView;

verus! {

/// Whether the code address that `op` holds, if it holds one, lies in
/// `low..=high`: the target of a jump, or the start of a procedure.
pub open spec fn lands_within(op: OpView, low: nat, high: nat) -> bool {
    match op {
        OpView::Jump(target) => low <= target <= high,
        OpView::JumpTrue(target) => low <= target <= high,
        OpView::MakeProc(start, _) => low <= start <= high,
        _ => true,
    }
}

/// Whether every code address in `ops` lies in `low..=high`.
pub open spec fn all_land_within(ops: Seq<OpView>, low: nat, high: nat) -> bool {
    forall|i: int| 0 <= i < ops.len() ==> lands_within(#[trigger] ops[i], low, high)
}

/// Whether the code of the expression ends with a branch of a conditional,
/// so that the jump over that branch leads to the end of the code.
pub open spec fn ends_in_branch(expr: ExprView) -> bool
    decreases expr,
{
    match expr {
        ExprView::If { .. } => true,
        ExprView::Let { body, .. } => ends_in_branch(*body),
        ExprView::Assert { body, .. } => ends_in_branch(*body),
        _ => false,
    }
}

/// The instruction with its code address, if it holds one, moved up by `by`.
pub open spec fn moved(op: OpView, by: nat) -> OpView {
    match op {
        OpView::Jump(target) => OpView::Jump(target + by),
        OpView::JumpTrue(target) => OpView::JumpTrue(target + by),
        OpView::MakeProc(start, captures) => OpView::MakeProc(start + by, captures),
        _ => op,
    }
}

/// The instructions with every code address moved up by `by`.
pub open spec fn relocated(ops: Seq<OpView>, by: nat) -> Seq<OpView> {
    Seq::new(ops.len(), |i: int| moved(ops[i], by))
}

/// Code addresses that lie in a range lie in every wider range.
proof fn lemma_widen(ops: Seq<OpView>, low: nat, high: nat, lower: nat, higher: nat)
    requires
        all_land_within(ops, low, high),
        lower <= low,
        high <= higher,
    ensures
        all_land_within(ops, lower, higher),
{
    assert forall|i: int| 0 <= i < ops.len() implies lands_within(
        #[trigger] ops[i],
        lower,
        higher,
    ) by {
        assert(lands_within(ops[i], low, high));
    }
}

/// What holds of two pieces of code holds of the one after the other.
proof fn lemma_join(a: Seq<OpView>, b: Seq<OpView>, low: nat, high: nat)
    requires
        all_land_within(a, low, high),
        all_land_within(b, low, high),
    ensures
        all_land_within(a + b, low, high),
{
    assert forall|i: int| 0 <= i < (a + b).len() implies lands_within(
        #[trigger] (a + b)[i],
        low,
        high,
    ) by {
        if i < a.len() {
            assert(lands_within(a[i], low, high));
        } else {
            assert(lands_within(b[i - a.len()], low, high));
        }
    }
}

/// Every expression compiles to at least one instruction, and to as many
/// wherever its code is put.
pub proof fn lemma_emit_len(
    expr: ExprView,
    scope: Scope,
    position: ExprPos,
    at: nat,
    other_position: ExprPos,
    elsewhere: nat,
)
    ensures
        emit(expr, scope, position, at).len() >= 1,
        emit(expr, scope, position, at).len() == emit(
            expr,
            scope,
            other_position,
            elsewhere,
        ).len(),
    decreases expr,
{
    let o = ExprPos::Operand;
    match expr {
        ExprView::Subtract { left, right } => {
            lemma_emit_len(*left, scope, o, at, o, elsewhere);
            let n = emit(*left, scope, o, at).len();
            lemma_emit_len(*right, scope, o, at + n, o, elsewhere + n);
        },
        ExprView::Negate(inner) => {
            lemma_emit_len(*inner, scope, o, at, o, elsewhere);
        },
        ExprView::IsZero(inner) => {
            lemma_emit_len(*inner, scope, o, at, o, elsewhere);
        },
        ExprView::Assert { line, test, body } => {
            lemma_emit_len(*test, scope, o, at, o, elsewhere);
            let n = emit(*test, scope, o, at).len();
            lemma_emit_len(*body, scope, position, at + n + 1, other_position, elsewhere + n + 1);
        },
        ExprView::If { test, consequent, alternate } => {
            lemma_emit_len(*test, scope, o, at, o, elsewhere);
            let n = emit(*test, scope, o, at).len();
            lemma_emit_len(
                *alternate,
                scope,
                position,
                at + n + 1,
                other_position,
                elsewhere + n + 1,
            );
            let k = emit(*alternate, scope, position, at + n + 1).len();
            lemma_emit_len(
                *consequent,
                scope,
                position,
                at + n + 1 + k + 1,
                other_position,
                elsewhere + n + 1 + k + 1,
            );
        },
        ExprView::Let { expr, body } => {
            lemma_emit_len(*expr, scope, o, at, o, elsewhere);
            let n = emit(*expr, scope, o, at).len();
            lemma_emit_len(*body, scope, position, at + n, other_position, elsewhere + n);
        },
        ExprView::Call { proc, arg } => {
            lemma_emit_len(*proc, scope, o, at, o, elsewhere);
            let n = emit(*proc, scope, o, at).len();
            lemma_emit_len(*arg, scope, o, at + n, o, elsewhere + n);
        },
        ExprView::Proc { body, captures } => {
            lemma_emit_len(
                *body,
                Scope::Local,
                ExprPos::Tail,
                at + 1,
                ExprPos::Tail,
                elsewhere + 1,
            );
        },
        _ => {},
    }
}

/// Every jump in the code of an expression leads into that code or to its
/// end, and every procedure starts in it. No jump leads to the end unless
/// the code ends with a branch of a conditional.
pub proof fn lemma_addresses_land(expr: ExprView, scope: Scope, position: ExprPos, at: nat)
    ensures
        all_land_within(
            emit(expr, scope, position, at),
            at,
            at + emit(expr, scope, position, at).len(),
        ),
        !ends_in_branch(expr) ==> all_land_within(
            emit(expr, scope, position, at),
            at,
            (at + emit(expr, scope, position, at).len() - 1) as nat,
        ),
    decreases expr,
{
    let o = ExprPos::Operand;
    let code = emit(expr, scope, position, at);
    let end = at + code.len();
    lemma_emit_len(expr, scope, position, at, position, at);
    match expr {
        ExprView::Subtract { left, right } => {
            let l = emit(*left, scope, o, at);
            let r = emit(*right, scope, o, at + l.len());
            lemma_addresses_land(*left, scope, o, at);
            lemma_addresses_land(*right, scope, o, at + l.len());
            lemma_widen(l, at, at + l.len(), at, (end - 1) as nat);
            lemma_widen(r, at + l.len(), at + l.len() + r.len(), at, (end - 1) as nat);
            lemma_join(l, r, at, (end - 1) as nat);
            lemma_join(l + r, seq![OpView::Diff], at, (end - 1) as nat);
            lemma_widen(code, at, (end - 1) as nat, at, end);
        },
        ExprView::Negate(inner) => {
            let e = emit(*inner, scope, o, at);
            lemma_addresses_land(*inner, scope, o, at);
            lemma_widen(e, at, at + e.len(), at, (end - 1) as nat);
            lemma_join(e, seq![OpView::Negate], at, (end - 1) as nat);
            lemma_widen(code, at, (end - 1) as nat, at, end);
        },
        ExprView::IsZero(inner) => {
            let e = emit(*inner, scope, o, at);
            lemma_addresses_land(*inner, scope, o, at);
            lemma_widen(e, at, at + e.len(), at, (end - 1) as nat);
            lemma_join(e, seq![OpView::IsZero], at, (end - 1) as nat);
            lemma_widen(code, at, (end - 1) as nat, at, end);
        },
        ExprView::Assert { line, test, body } => {
            let t = emit(*test, scope, o, at);
            let b = emit(*body, scope, position, at + t.len() + 1);
            lemma_addresses_land(*test, scope, o, at);
            lemma_addresses_land(*body, scope, position, at + t.len() + 1);
            lemma_emit_len(*body, scope, position, at + t.len() + 1, position, at);
            lemma_widen(t, at, at + t.len(), at, (end - 1) as nat);
            lemma_join(t, seq![OpView::Assert { line }], at, (end - 1) as nat);
            let head = t + seq![OpView::Assert { line }];
            lemma_widen(head, at, (end - 1) as nat, at, end);
            lemma_widen(b, at + t.len() + 1, end, at, end);
            lemma_join(head, b, at, end);
            if !ends_in_branch(expr) {
                lemma_widen(b, at + t.len() + 1, (end - 1) as nat, at, (end - 1) as nat);
                lemma_join(head, b, at, (end - 1) as nat);
            }
        },
        ExprView::If { test, consequent, alternate } => {
            let t = emit(*test, scope, o, at);
            let a = emit(*alternate, scope, position, at + t.len() + 1);
            let start = at + t.len() + 1 + a.len() + 1;
            let c = emit(*consequent, scope, position, start);
            lemma_addresses_land(*test, scope, o, at);
            lemma_addresses_land(*alternate, scope, position, at + t.len() + 1);
            lemma_addresses_land(*consequent, scope, position, start);
            lemma_widen(t, at, at + t.len(), at, end);
            lemma_widen(a, at + t.len() + 1, at + t.len() + 1 + a.len(), at, end);
            lemma_widen(c, start, start + c.len(), at, end);
            lemma_join(t, seq![OpView::JumpTrue(start)], at, end);
            lemma_join(t + seq![OpView::JumpTrue(start)], a, at, end);
            lemma_join(
                t + seq![OpView::JumpTrue(start)] + a,
                seq![OpView::Jump(start + c.len())],
                at,
                end,
            );
            lemma_join(
                t + seq![OpView::JumpTrue(start)] + a + seq![OpView::Jump(start + c.len())],
                c,
                at,
                end,
            );
        },
        ExprView::Let { expr: bound, body } => {
            let e = emit(*bound, scope, o, at);
            let b = emit(*body, scope, position, at + e.len());
            lemma_addresses_land(*bound, scope, o, at);
            lemma_addresses_land(*body, scope, position, at + e.len());
            lemma_emit_len(*body, scope, position, at + e.len(), position, at);
            lemma_widen(e, at, at + e.len(), at, (end - 1) as nat);
            lemma_widen(e, at, at + e.len(), at, end);
            lemma_widen(b, at + e.len(), end, at, end);
            lemma_join(e, b, at, end);
            if !ends_in_branch(expr) {
                lemma_widen(b, at + e.len(), (end - 1) as nat, at, (end - 1) as nat);
                lemma_join(e, b, at, (end - 1) as nat);
            }
        },
        ExprView::Call { proc, arg } => {
            let p = emit(*proc, scope, o, at);
            let a = emit(*arg, scope, o, at + p.len());
            lemma_addresses_land(*proc, scope, o, at);
            lemma_addresses_land(*arg, scope, o, at + p.len());
            lemma_widen(p, at, at + p.len(), at, (end - 1) as nat);
            lemma_widen(a, at + p.len(), at + p.len() + a.len(), at, (end - 1) as nat);
            lemma_join(p, a, at, (end - 1) as nat);
            lemma_join(p + a, seq![super::call_op(scope, position)], at, (end - 1) as nat);
            lemma_widen(code, at, (end - 1) as nat, at, end);
        },
        ExprView::Proc { body, captures } => {
            let b = emit(*body, Scope::Local, ExprPos::Tail, at + 1);
            lemma_addresses_land(*body, Scope::Local, ExprPos::Tail, at + 1);
            lemma_emit_len(*body, Scope::Local, ExprPos::Tail, at + 1, ExprPos::Tail, at);
            let jump = seq![OpView::Jump(at + 1 + b.len() + 1)];
            let tail = seq![OpView::Return, OpView::MakeProc(at + 1, captures)];
            lemma_widen(b, at + 1, at + 1 + b.len(), at, (end - 1) as nat);
            lemma_join(jump, b, at, (end - 1) as nat);
            lemma_join(jump + b, tail, at, (end - 1) as nat);
            lemma_widen(code, at, (end - 1) as nat, at, end);
        },
        _ => {},
    }
}

/// Moving two pieces of code moves the one after the other.
proof fn lemma_relocated_join(a: Seq<OpView>, b: Seq<OpView>, by: nat)
    ensures
        relocated(a + b, by) == relocated(a, by) + relocated(b, by),
{
    assert(relocated(a + b, by) =~= relocated(a, by) + relocated(b, by));
}

/// The code of an expression at a higher address is its code with every
/// code address moved up by the distance.
pub proof fn lemma_emit_relocates(
    expr: ExprView,
    scope: Scope,
    position: ExprPos,
    at: nat,
    by: nat,
)
    ensures
        emit(expr, scope, position, at + by) == relocated(emit(expr, scope, position, at), by),
    decreases expr,
{
    let o = ExprPos::Operand;
    let code = emit(expr, scope, position, at);
    let there = emit(expr, scope, position, at + by);
    match expr {
        ExprView::Subtract { left, right } => {
            let l = emit(*left, scope, o, at);
            let r = emit(*right, scope, o, at + l.len());
            lemma_emit_relocates(*left, scope, o, at, by);
            lemma_emit_relocates(*right, scope, o, at + l.len(), by);
            assert(at + by + l.len() == at + l.len() + by);
            lemma_relocated_join(l, r, by);
            lemma_relocated_join(l + r, seq![OpView::Diff], by);
            assert(relocated(seq![OpView::Diff], by) =~= seq![OpView::Diff]);
        },
        ExprView::Negate(inner) => {
            let e = emit(*inner, scope, o, at);
            lemma_emit_relocates(*inner, scope, o, at, by);
            lemma_relocated_join(e, seq![OpView::Negate], by);
            assert(relocated(seq![OpView::Negate], by) =~= seq![OpView::Negate]);
        },
        ExprView::IsZero(inner) => {
            let e = emit(*inner, scope, o, at);
            lemma_emit_relocates(*inner, scope, o, at, by);
            lemma_relocated_join(e, seq![OpView::IsZero], by);
            assert(relocated(seq![OpView::IsZero], by) =~= seq![OpView::IsZero]);
        },
        ExprView::Assert { line, test, body } => {
            let t = emit(*test, scope, o, at);
            let b = emit(*body, scope, position, at + t.len() + 1);
            lemma_emit_relocates(*test, scope, o, at, by);
            lemma_emit_relocates(*body, scope, position, at + t.len() + 1, by);
            assert(at + by + t.len() + 1 == at + t.len() + 1 + by);
            let mid = seq![OpView::Assert { line }];
            lemma_relocated_join(t, mid, by);
            lemma_relocated_join(t + mid, b, by);
            assert(relocated(mid, by) =~= mid);
        },
        ExprView::If { test, consequent, alternate } => {
            let t = emit(*test, scope, o, at);
            let a = emit(*alternate, scope, position, at + t.len() + 1);
            let start = at + t.len() + 1 + a.len() + 1;
            let c = emit(*consequent, scope, position, start);
            lemma_emit_relocates(*test, scope, o, at, by);
            lemma_emit_relocates(*alternate, scope, position, at + t.len() + 1, by);
            lemma_emit_relocates(*consequent, scope, position, start, by);
            assert(at + by + t.len() + 1 == at + t.len() + 1 + by);
            assert(at + by + t.len() + 1 + a.len() + 1 == start + by);
            let first = seq![OpView::JumpTrue(start)];
            let second = seq![OpView::Jump(start + c.len())];
            lemma_relocated_join(t, first, by);
            lemma_relocated_join(t + first, a, by);
            lemma_relocated_join(t + first + a, second, by);
            lemma_relocated_join(t + first + a + second, c, by);
            assert(relocated(first, by) =~= seq![OpView::JumpTrue(start + by)]);
            assert(relocated(second, by) =~= seq![OpView::Jump(start + by + c.len())]);
        },
        ExprView::Let { expr: bound, body } => {
            let e = emit(*bound, scope, o, at);
            let b = emit(*body, scope, position, at + e.len());
            lemma_emit_relocates(*bound, scope, o, at, by);
            lemma_emit_relocates(*body, scope, position, at + e.len(), by);
            assert(at + by + e.len() == at + e.len() + by);
            lemma_relocated_join(e, b, by);
        },
        ExprView::Call { proc, arg } => {
            let p = emit(*proc, scope, o, at);
            let a = emit(*arg, scope, o, at + p.len());
            lemma_emit_relocates(*proc, scope, o, at, by);
            lemma_emit_relocates(*arg, scope, o, at + p.len(), by);
            assert(at + by + p.len() == at + p.len() + by);
            let last = seq![super::call_op(scope, position)];
            lemma_relocated_join(p, a, by);
            lemma_relocated_join(p + a, last, by);
            assert(relocated(last, by) =~= last);
        },
        ExprView::Proc { body, captures } => {
            let b = emit(*body, Scope::Local, ExprPos::Tail, at + 1);
            lemma_emit_relocates(*body, Scope::Local, ExprPos::Tail, at + 1, by);
            assert(at + by + 1 == at + 1 + by);
            let jump = seq![OpView::Jump(at + 1 + b.len() + 1)];
            let tail = seq![OpView::Return, OpView::MakeProc(at + 1, captures)];
            lemma_relocated_join(jump, b, by);
            lemma_relocated_join(jump + b, tail, by);
            assert(relocated(jump, by) =~= seq![OpView::Jump(at + by + 1 + b.len() + 1)]);
            assert(relocated(tail, by) =~= seq![
                OpView::Return,
                OpView::MakeProc(at + by + 1, captures),
            ]);
        },
        _ => {
            assert(there =~= relocated(code, by));
        },
    }
}

/// Exchanging the branches of a conditional exchanges their code, and
/// changes nothing else but the addresses that follow from the exchange.
///
/// The code of a conditional is the code of the test, a jump to the
/// consequent, the alternate, a jump to the end, and the consequent. With
/// the branches exchanged, the code of each branch stands where the code of
/// the other stood, moved to its new address; the first jump leads to the
/// branch that now comes second, and the second jump to the same end.
pub proof fn lemma_exchanged_branches(
    test: ExprView,
    first: ExprView,
    second: ExprView,
    scope: Scope,
    position: ExprPos,
    at: nat,
)
    ensures
        ({
            let head = emit(test, scope, ExprPos::Operand, at);
            let low = at + head.len() + 1;
            let one = emit(first, scope, position, low);
            let two = emit(second, scope, position, low);
            let end = low + one.len() + 1 + two.len();
            &&& emit(
                ExprView::If {
                    test: Box::new(test),
                    consequent: Box::new(first),
                    alternate: Box::new(second),
                },
                scope,
                position,
                at,
            ) == head + seq![OpView::JumpTrue(low + two.len() + 1)] + two + seq![
                OpView::Jump(end),
            ] + relocated(one, two.len() + 1)
            &&& emit(
                ExprView::If {
                    test: Box::new(test),
                    consequent: Box::new(second),
                    alternate: Box::new(first),
                },
                scope,
                position,
                at,
            ) == head + seq![OpView::JumpTrue(low + one.len() + 1)] + one + seq![
                OpView::Jump(end),
            ] + relocated(two, one.len() + 1)
        }),
{
    let head = emit(test, scope, ExprPos::Operand, at);
    let low = at + head.len() + 1;
    let one = emit(first, scope, position, low);
    let two = emit(second, scope, position, low);
    lemma_emit_relocates(first, scope, position, low, two.len() + 1);
    lemma_emit_relocates(second, scope, position, low, one.len() + 1);
    lemma_emit_len(first, scope, position, low, position, low + two.len() + 1);
    lemma_emit_len(second, scope, position, low, position, low + one.len() + 1);
    assert(low + two.len() + 1 == at + head.len() + 1 + two.len() + 1);
    assert(low + one.len() + 1 == at + head.len() + 1 + one.len() + 1);
}

} // verus!
