//! The stack discipline of compiled code.
//!
//! Compiled code never takes from the value stack what the frame that it
//! runs in has not put there, and never returns without a caller. This
//! module says so in two steps. `plan` gives, for each instruction of the
//! code of an expression, a height that the current frame is sure to have
//! when the instruction is executed, and says whether the instruction
//! belongs to the body of a procedure. The code of every expression is safe
//! with its plan. What `runtime::discipline` shows of every run of a
//! program that is safe with a plan then holds of every run of a compiled
//! program.

use vstd::prelude::*;
use crate::ast::nameless::ExprView;
use crate::compiler::layout::lemma_emit_len;
use crate::compiler::{call_op, emit, ExprPos, Scope};
use crate::offset::Capture;
use crate::runtime::discipline::{
    lemma_initial_ok, lemma_ok_frames_nest, lemma_outcome_has_operands, lemma_run_ok, safe_at,
    segment_safe, Spot,
};
use crate::runtime::frames::{frames_fit, frames_nest, keeps_to_frame};
use crate::runtime::semantics::{initial, outcome, reached, Fault, OpView, ValueView};

verus! {

/// The spot of an instruction that counts on the height `h` in code of the
/// scope `scope`.
pub open spec fn spot(scope: Scope, h: nat) -> Spot {
    Spot { height: h, inside: scope == Scope::Local }
}

/// The plan of the code of `expr`: for each instruction, a height that the
/// current frame has at least when the instruction is executed, if the frame
/// has at least the height `h` where the code begins. Where the code ends,
/// the frame has at least the height `h + 1`.
pub open spec fn plan(expr: ExprView, scope: Scope, h: nat) -> Seq<Spot>
    decreases expr,
{
    match expr {
        ExprView::Subtract { left, right } => plan(*left, scope, h) + plan(*right, scope, h + 1)
            + seq![spot(scope, h + 2)],
        ExprView::Negate(inner) => plan(*inner, scope, h) + seq![spot(scope, h + 1)],
        ExprView::IsZero(inner) => plan(*inner, scope, h) + seq![spot(scope, h + 1)],
        ExprView::Assert { test, body, .. } => plan(*test, scope, h) + seq![spot(scope, h + 1)]
            + plan(*body, scope, h),
        ExprView::If { test, consequent, alternate } => plan(*test, scope, h) + seq![
            spot(scope, h + 1),
        ] + plan(*alternate, scope, h) + seq![spot(scope, h + 1)] + plan(*consequent, scope, h),
        ExprView::Let { expr, body } => plan(*expr, scope, h) + plan(*body, scope, h + 1),
        ExprView::Call { proc, arg } => plan(*proc, scope, h) + plan(*arg, scope, h + 1) + seq![
            spot(scope, h + 2),
        ],
        // The body runs in a frame of its own, which begins with the
        // procedure and its argument.
        ExprView::Proc { body, .. } => seq![spot(scope, h)] + plan(*body, Scope::Local, 2)
            + seq![spot(Scope::Local, 3), spot(scope, h)],
        _ => seq![spot(scope, h)],
    }
}

/// A plan has one spot for each instruction, and the first is the spot at
/// which the code is entered.
pub proof fn lemma_plan_len(expr: ExprView, scope: Scope, position: ExprPos, at: nat, h: nat)
    ensures
        plan(expr, scope, h).len() == emit(expr, scope, position, at).len(),
        plan(expr, scope, h)[0] == spot(scope, h),
    decreases expr,
{
    let o = ExprPos::Operand;
    lemma_emit_len(expr, scope, position, at, position, at);
    match expr {
        ExprView::Subtract { left, right } => {
            lemma_plan_len(*left, scope, o, at, h);
            lemma_emit_len(*left, scope, o, at, o, at);
            lemma_plan_len(*right, scope, o, at + emit(*left, scope, o, at).len(), h + 1);
        },
        ExprView::Negate(inner) => {
            lemma_plan_len(*inner, scope, o, at, h);
            lemma_emit_len(*inner, scope, o, at, o, at);
        },
        ExprView::IsZero(inner) => {
            lemma_plan_len(*inner, scope, o, at, h);
            lemma_emit_len(*inner, scope, o, at, o, at);
        },
        ExprView::Assert { test, body, .. } => {
            lemma_plan_len(*test, scope, o, at, h);
            lemma_emit_len(*test, scope, o, at, o, at);
            lemma_plan_len(*body, scope, position, at + emit(*test, scope, o, at).len() + 1, h);
        },
        ExprView::If { test, consequent, alternate } => {
            let t = emit(*test, scope, o, at);
            lemma_plan_len(*test, scope, o, at, h);
            lemma_emit_len(*test, scope, o, at, o, at);
            let a = emit(*alternate, scope, position, at + t.len() + 1);
            lemma_plan_len(*alternate, scope, position, at + t.len() + 1, h);
            lemma_plan_len(*consequent, scope, position, at + t.len() + 1 + a.len() + 1, h);
        },
        ExprView::Let { expr: bound, body } => {
            lemma_plan_len(*bound, scope, o, at, h);
            lemma_emit_len(*bound, scope, o, at, o, at);
            lemma_plan_len(*body, scope, position, at + emit(*bound, scope, o, at).len(), h + 1);
        },
        ExprView::Call { proc, arg } => {
            lemma_plan_len(*proc, scope, o, at, h);
            lemma_emit_len(*proc, scope, o, at, o, at);
            lemma_plan_len(*arg, scope, o, at + emit(*proc, scope, o, at).len(), h + 1);
        },
        ExprView::Proc { body, .. } => {
            lemma_plan_len(*body, Scope::Local, ExprPos::Tail, at + 1, 2);
        },
        _ => {},
    }
}

/// Code that is safe on its own is safe as a part of more code, if what
/// follows the part counts on no more than the part leaves.
proof fn lemma_embedded(
    code: Seq<OpView>,
    at: nat,
    whole: Seq<Spot>,
    k: int,
    part: Seq<OpView>,
    part_plan: Seq<Spot>,
    exit: Spot,
)
    requires
        0 <= k,
        k + part.len() <= code.len(),
        whole.len() == code.len() + 1,
        code.subrange(k, k + part.len()) == part,
        whole.subrange(k, k + part.len()) == part_plan,
        whole[k + part.len()].height <= exit.height,
        whole[k + part.len()].inside == exit.inside,
        segment_safe(part, (at + k) as nat, part_plan.push(exit)),
    ensures
        forall|j: int| k <= j < k + part.len() ==> #[trigger] safe_at(code, at, whole, j),
{
    let own = part_plan.push(exit);
    assert forall|j: int| k <= j < k + part.len() implies #[trigger] safe_at(
        code,
        at,
        whole,
        j,
    ) by {
        let i = j - k;
        assert(safe_at(part, (at + k) as nat, own, i));
        assert(part[i] == code.subrange(k, k + part.len())[i]);
        assert(part_plan[i] == whole.subrange(k, k + part.len())[i]);
        assert(own[i] == whole[j]);
        if i + 1 < part.len() {
            assert(part_plan[i + 1] == whole.subrange(k, k + part.len())[i + 1]);
        }
        assert(whole[j + 1].height <= own[i + 1].height);
        assert(whole[j + 1].inside == own[i + 1].inside);
        match part[i] {
            OpView::MakeProc(start, _) => {
                let t = start - at - k;
                assert(part_plan[t] == whole.subrange(k, k + part.len())[t]);
            },
            OpView::Jump(target) => {
                let t = target - at - k;
                if t < part.len() {
                    assert(part_plan[t] == whole.subrange(k, k + part.len())[t]);
                }
                assert(whole[target - at].height <= own[t].height);
                assert(whole[target - at].inside == own[t].inside);
            },
            OpView::JumpTrue(target) => {
                let t = target - at - k;
                if t < part.len() {
                    assert(part_plan[t] == whole.subrange(k, k + part.len())[t]);
                }
                assert(whole[target - at].height <= own[t].height);
                assert(whole[target - at].inside == own[t].inside);
            },
            _ => {},
        }
    }
}

/// One piece of safe code after another is safe, if the second counts on
/// no more than the first leaves.
proof fn lemma_safe_join(
    first: Seq<OpView>,
    first_plan: Seq<Spot>,
    first_exit: Spot,
    second: Seq<OpView>,
    second_plan: Seq<Spot>,
    exit: Spot,
    at: nat,
)
    requires
        segment_safe(first, at, first_plan.push(first_exit)),
        segment_safe(second, at + first.len(), second_plan.push(exit)),
        second.len() >= 1,
        second_plan[0].height <= first_exit.height,
        second_plan[0].inside == first_exit.inside,
    ensures
        segment_safe(first + second, at, (first_plan + second_plan).push(exit)),
{
    let code = first + second;
    let whole = (first_plan + second_plan).push(exit);
    let n = first.len() as int;
    assert(code.subrange(0, n) =~= first);
    assert(whole.subrange(0, n) =~= first_plan);
    lemma_embedded(code, at, whole, 0, first, first_plan, first_exit);
    assert(code.subrange(n, n + second.len()) =~= second);
    assert(whole.subrange(n, n + second.len()) =~= second_plan);
    lemma_embedded(code, at, whole, n, second, second_plan, exit);
    assert forall|j: int| 0 <= j < code.len() implies #[trigger] safe_at(code, at, whole, j) by {}
}

/// Safe code stays safe where less is counted on after it.
proof fn lemma_safe_lower(code: Seq<OpView>, at: nat, own: Seq<Spot>, exit: Spot, lower: Spot)
    requires
        segment_safe(code, at, own.push(exit)),
        lower.height <= exit.height,
        lower.inside == exit.inside,
    ensures
        segment_safe(code, at, own.push(lower)),
{
    let lowered = own.push(lower);
    assert(code.subrange(0, code.len() as int) =~= code);
    assert(lowered.subrange(0, code.len() as int) =~= own);
    lemma_embedded(code, at, lowered, 0, code, own, exit);
    assert forall|j: int| 0 <= j < code.len() implies #[trigger] safe_at(code, at, lowered, j) by {}
}

/// Whether an instruction that holds no code address is safe at the height
/// `here` where the height `next` is counted on after it. `inside` says
/// whether the instruction belongs to the body of a procedure.
pub open spec fn plain_safe(op: OpView, here: nat, next: nat, inside: bool) -> bool {
    match op {
        OpView::PushValue(value) => !(value is Procedure) && next <= here + 1,
        OpView::PushLocal(_) => next <= here + 1,
        OpView::PushGlobal(_) => next <= here + 1,
        OpView::PushCapture(_) => next <= here + 1,
        OpView::Diff => here >= 2 && next + 1 <= here,
        OpView::Negate => here >= 1 && next <= here,
        OpView::IsZero => here >= 1 && next <= here,
        OpView::Assert { .. } => here >= 1 && next + 1 <= here,
        OpView::Call => here >= 2 && next + 1 <= here,
        OpView::TailCall => here >= 2 && inside,
        OpView::Return => here >= 1 && inside,
        _ => false,
    }
}

/// One safe instruction is safe code.
proof fn lemma_safe_one(op: OpView, at: nat, scope: Scope, here: nat, next: nat)
    requires
        plain_safe(op, here, next, scope == Scope::Local),
    ensures
        segment_safe(seq![op], at, seq![spot(scope, here)].push(spot(scope, next))),
{
    assert(safe_at(seq![op], at, seq![spot(scope, here)].push(spot(scope, next)), 0));
}

/// Safe code and one safe instruction after it are safe.
proof fn lemma_safe_then(
    code: Seq<OpView>,
    own: Seq<Spot>,
    op: OpView,
    scope: Scope,
    here: nat,
    next: nat,
    at: nat,
)
    requires
        segment_safe(code, at, own.push(spot(scope, here))),
        plain_safe(op, here, next, scope == Scope::Local),
    ensures
        segment_safe(code + seq![op], at, (own + seq![spot(scope, here)]).push(spot(scope, next))),
{
    lemma_safe_one(op, at + code.len(), scope, here, next);
    lemma_safe_join(
        code,
        own,
        spot(scope, here),
        seq![op],
        seq![spot(scope, here)],
        spot(scope, next),
        at,
    );
}

/// The code of a conditional is safe if the code of its parts is.
proof fn lemma_safe_if(
    test: Seq<OpView>,
    test_plan: Seq<Spot>,
    alternate: Seq<OpView>,
    alternate_plan: Seq<Spot>,
    consequent: Seq<OpView>,
    consequent_plan: Seq<Spot>,
    at: nat,
    scope: Scope,
    h: nat,
)
    requires
        segment_safe(test, at, test_plan.push(spot(scope, h + 1))),
        segment_safe(alternate, at + test.len() + 1, alternate_plan.push(spot(scope, h + 1))),
        segment_safe(
            consequent,
            at + test.len() + 1 + alternate.len() + 1,
            consequent_plan.push(spot(scope, h + 1)),
        ),
        alternate.len() >= 1,
        consequent.len() >= 1,
        alternate_plan[0] == spot(scope, h),
        consequent_plan[0] == spot(scope, h),
    ensures
        ({
            let start = at + test.len() + 1 + alternate.len() + 1;
            segment_safe(
                test + seq![OpView::JumpTrue(start)] + alternate + seq![
                    OpView::Jump(start + consequent.len()),
                ] + consequent,
                at,
                (test_plan + seq![spot(scope, h + 1)] + alternate_plan + seq![
                    spot(scope, h + 1),
                ] + consequent_plan).push(spot(scope, h + 1)),
            )
        }),
{
    let start = at + test.len() + 1 + alternate.len() + 1;
    let code = test + seq![OpView::JumpTrue(start)] + alternate + seq![
        OpView::Jump(start + consequent.len()),
    ] + consequent;
    let whole = (test_plan + seq![spot(scope, h + 1)] + alternate_plan + seq![spot(scope, h + 1)]
        + consequent_plan).push(spot(scope, h + 1));
    let nt = test.len() as int;
    let ka = nt + 1;
    let kc = ka + alternate.len() + 1;
    assert(code.subrange(0, nt) =~= test);
    assert(whole.subrange(0, nt) =~= test_plan);
    lemma_embedded(code, at, whole, 0, test, test_plan, spot(scope, h + 1));
    assert(code.subrange(ka, ka + alternate.len()) =~= alternate);
    assert(whole.subrange(ka, ka + alternate.len()) =~= alternate_plan);
    lemma_embedded(code, at, whole, ka, alternate, alternate_plan, spot(scope, h + 1));
    assert(code.subrange(kc, kc + consequent.len()) =~= consequent);
    assert(whole.subrange(kc, kc + consequent.len()) =~= consequent_plan);
    lemma_embedded(code, at, whole, kc, consequent, consequent_plan, spot(scope, h + 1));
    assert(code[nt] == OpView::JumpTrue(start));
    assert(whole[nt] == spot(scope, h + 1));
    assert(whole[ka] == alternate_plan[0]);
    assert(whole[kc] == consequent_plan[0]);
    assert(safe_at(code, at, whole, nt));
    assert(code[kc - 1] == OpView::Jump(start + consequent.len()));
    assert(whole[kc - 1] == spot(scope, h + 1));
    assert(whole[kc + consequent.len()] == spot(scope, h + 1));
    assert(safe_at(code, at, whole, kc - 1));
    assert forall|j: int| 0 <= j < code.len() implies #[trigger] safe_at(code, at, whole, j) by {}
}

/// The code of a procedure is safe if the code of its body is.
proof fn lemma_safe_proc(
    body: Seq<OpView>,
    body_plan: Seq<Spot>,
    captures: Seq<Capture>,
    at: nat,
    scope: Scope,
    h: nat,
)
    requires
        segment_safe(body, at + 1, body_plan.push(spot(Scope::Local, 3))),
        body.len() >= 1,
        body_plan[0] == spot(Scope::Local, 2),
    ensures
        segment_safe(
            seq![OpView::Jump(at + 1 + body.len() + 1)] + body + seq![
                OpView::Return,
                OpView::MakeProc(at + 1, captures),
            ],
            at,
            (seq![spot(scope, h)] + body_plan + seq![spot(Scope::Local, 3), spot(scope, h)]).push(
                spot(scope, h + 1),
            ),
        ),
{
    let code = seq![OpView::Jump(at + 1 + body.len() + 1)] + body + seq![
        OpView::Return,
        OpView::MakeProc(at + 1, captures),
    ];
    let whole = (seq![spot(scope, h)] + body_plan + seq![spot(Scope::Local, 3), spot(scope, h)]).push(
        spot(scope, h + 1),
    );
    let n = body.len() as int;
    assert(code.subrange(1, 1 + n) =~= body);
    assert(whole.subrange(1, 1 + n) =~= body_plan);
    lemma_embedded(code, at, whole, 1, body, body_plan, spot(Scope::Local, 3));
    assert(code[0] == OpView::Jump(at + 1 + body.len() + 1));
    assert(whole[0] == spot(scope, h));
    assert(whole[n + 2] == spot(scope, h));
    assert(safe_at(code, at, whole, 0));
    assert(code[n + 1] == OpView::Return);
    assert(whole[n + 1] == spot(Scope::Local, 3));
    assert(safe_at(code, at, whole, n + 1));
    assert(code[n + 2] == OpView::MakeProc(at + 1, captures));
    assert(whole[1] == body_plan[0]);
    assert(whole[n + 3] == spot(scope, h + 1));
    assert(safe_at(code, at, whole, n + 2));
    assert forall|j: int| 0 <= j < code.len() implies #[trigger] safe_at(code, at, whole, j) by {}
}

/// The code of every expression is safe with its plan. A call that takes
/// the place of its frame stands in the body of a procedure, because no
/// other call is in tail position.
pub proof fn lemma_emit_safe(expr: ExprView, scope: Scope, position: ExprPos, at: nat, h: nat)
    ensures
        segment_safe(
            emit(expr, scope, position, at),
            at,
            plan(expr, scope, h).push(spot(scope, h + 1)),
        ),
    decreases expr,
{
    let o = ExprPos::Operand;
    lemma_plan_len(expr, scope, position, at, h);
    match expr {
        ExprView::Subtract { left, right } => {
            let l = emit(*left, scope, o, at);
            let r = emit(*right, scope, o, at + l.len());
            lemma_plan_len(*right, scope, o, at + l.len(), h + 1);
            lemma_emit_len(*right, scope, o, at + l.len(), o, at);
            lemma_emit_safe(*left, scope, o, at, h);
            lemma_emit_safe(*right, scope, o, at + l.len(), h + 1);
            lemma_safe_join(
                l,
                plan(*left, scope, h),
                spot(scope, h + 1),
                r,
                plan(*right, scope, h + 1),
                spot(scope, h + 2),
                at,
            );
            lemma_safe_then(
                l + r,
                plan(*left, scope, h) + plan(*right, scope, h + 1),
                OpView::Diff,
                scope,
                h + 2,
                h + 1,
                at,
            );
        },
        ExprView::Negate(inner) => {
            lemma_emit_safe(*inner, scope, o, at, h);
            lemma_safe_then(
                emit(*inner, scope, o, at),
                plan(*inner, scope, h),
                OpView::Negate,
                scope,
                h + 1,
                h + 1,
                at,
            );
        },
        ExprView::IsZero(inner) => {
            lemma_emit_safe(*inner, scope, o, at, h);
            lemma_safe_then(
                emit(*inner, scope, o, at),
                plan(*inner, scope, h),
                OpView::IsZero,
                scope,
                h + 1,
                h + 1,
                at,
            );
        },
        ExprView::Assert { line, test, body } => {
            let t = emit(*test, scope, o, at);
            let b = emit(*body, scope, position, at + t.len() + 1);
            lemma_plan_len(*body, scope, position, at + t.len() + 1, h);
            lemma_emit_len(*body, scope, position, at + t.len() + 1, position, at);
            lemma_emit_safe(*test, scope, o, at, h);
            lemma_emit_safe(*body, scope, position, at + t.len() + 1, h);
            lemma_safe_then(t, plan(*test, scope, h), OpView::Assert { line }, scope, h + 1, h, at);
            lemma_safe_join(
                t + seq![OpView::Assert { line }],
                plan(*test, scope, h) + seq![spot(scope, h + 1)],
                spot(scope, h),
                b,
                plan(*body, scope, h),
                spot(scope, h + 1),
                at,
            );
        },
        ExprView::If { test, consequent, alternate } => {
            let t = emit(*test, scope, o, at);
            let a = emit(*alternate, scope, position, at + t.len() + 1);
            let start = at + t.len() + 1 + a.len() + 1;
            let c = emit(*consequent, scope, position, start);
            lemma_plan_len(*alternate, scope, position, at + t.len() + 1, h);
            lemma_plan_len(*consequent, scope, position, start, h);
            lemma_emit_len(*alternate, scope, position, at + t.len() + 1, position, at);
            lemma_emit_len(*consequent, scope, position, start, position, at);
            lemma_emit_safe(*test, scope, o, at, h);
            lemma_emit_safe(*alternate, scope, position, at + t.len() + 1, h);
            lemma_emit_safe(*consequent, scope, position, start, h);
            lemma_safe_if(
                t,
                plan(*test, scope, h),
                a,
                plan(*alternate, scope, h),
                c,
                plan(*consequent, scope, h),
                at,
                scope,
                h,
            );
        },
        ExprView::Let { expr: bound, body } => {
            let e = emit(*bound, scope, o, at);
            let b = emit(*body, scope, position, at + e.len());
            lemma_plan_len(*body, scope, position, at + e.len(), h + 1);
            lemma_emit_len(*body, scope, position, at + e.len(), position, at);
            lemma_emit_safe(*bound, scope, o, at, h);
            lemma_emit_safe(*body, scope, position, at + e.len(), h + 1);
            lemma_safe_join(
                e,
                plan(*bound, scope, h),
                spot(scope, h + 1),
                b,
                plan(*body, scope, h + 1),
                spot(scope, h + 2),
                at,
            );
            lemma_safe_lower(
                e + b,
                at,
                plan(*bound, scope, h) + plan(*body, scope, h + 1),
                spot(scope, h + 2),
                spot(scope, h + 1),
            );
        },
        ExprView::Call { proc, arg } => {
            let p = emit(*proc, scope, o, at);
            let a = emit(*arg, scope, o, at + p.len());
            lemma_plan_len(*arg, scope, o, at + p.len(), h + 1);
            lemma_emit_len(*arg, scope, o, at + p.len(), o, at);
            lemma_emit_safe(*proc, scope, o, at, h);
            lemma_emit_safe(*arg, scope, o, at + p.len(), h + 1);
            lemma_safe_join(
                p,
                plan(*proc, scope, h),
                spot(scope, h + 1),
                a,
                plan(*arg, scope, h + 1),
                spot(scope, h + 2),
                at,
            );
            lemma_safe_then(
                p + a,
                plan(*proc, scope, h) + plan(*arg, scope, h + 1),
                call_op(scope, position),
                scope,
                h + 2,
                h + 1,
                at,
            );
        },
        ExprView::Proc { body, captures } => {
            let b = emit(*body, Scope::Local, ExprPos::Tail, at + 1);
            lemma_plan_len(*body, Scope::Local, ExprPos::Tail, at + 1, 2);
            lemma_emit_len(*body, Scope::Local, ExprPos::Tail, at + 1, ExprPos::Tail, at);
            lemma_emit_safe(*body, Scope::Local, ExprPos::Tail, at + 1, 2);
            lemma_safe_proc(b, plan(*body, Scope::Local, 2), captures, at, scope, h);
        },
        ExprView::LiteralInt(value) => {
            lemma_safe_one(OpView::PushValue(ValueView::Integer(value)), at, scope, h, h + 1);
        },
        ExprView::LiteralBool(value) => {
            lemma_safe_one(OpView::PushValue(ValueView::Boolean(value)), at, scope, h, h + 1);
        },
        ExprView::Local(offset) => {
            lemma_safe_one(OpView::PushLocal(offset), at, scope, h, h + 1);
        },
        ExprView::Capture(offset) => {
            lemma_safe_one(OpView::PushCapture(offset), at, scope, h, h + 1);
        },
        ExprView::Global(offset) => {
            lemma_safe_one(OpView::PushGlobal(offset), at, scope, h, h + 1);
        },
    }
}

/// A compiled program is safe with its plan, which begins outside every
/// procedure with nothing on the stack and ends with a value on it.
proof fn lemma_program_safe(expr: ExprView)
    ensures
        ({
            let program = emit(expr, Scope::Global, ExprPos::Tail, 0);
            let whole = plan(expr, Scope::Global, 0).push(spot(Scope::Global, 1));
            &&& segment_safe(program, 0, whole)
            &&& whole[0] == (Spot { height: 0, inside: false })
            &&& whole[program.len() as int].height >= 1
        }),
{
    let whole = plan(expr, Scope::Global, 0).push(spot(Scope::Global, 1));
    lemma_emit_safe(expr, Scope::Global, ExprPos::Tail, 0, 0);
    lemma_plan_len(expr, Scope::Global, ExprPos::Tail, 0, 0);
    lemma_emit_len(expr, Scope::Global, ExprPos::Tail, 0, ExprPos::Tail, 0);
    assert(whole[0] == plan(expr, Scope::Global, 0)[0]);
}

/// Stack conservation for compiled programs: in every state of a run of a
/// compiled program the frames nest, so that every frame begins within the
/// value stack, and the next instruction keeps to the current frame.
pub proof fn lemma_compiled_frames_nest(expr: ExprView, n: nat)
    ensures
        ({
            let program = emit(expr, Scope::Global, ExprPos::Tail, 0);
            reached(program, initial(), n) matches Some(m) ==> frames_nest(m) && frames_fit(m)
                && keeps_to_frame(program, m)
        }),
{
    let program = emit(expr, Scope::Global, ExprPos::Tail, 0);
    let whole = plan(expr, Scope::Global, 0).push(spot(Scope::Global, 1));
    lemma_program_safe(expr);
    lemma_run_ok(program, whole, n);
    if let Some(m) = reached(program, initial(), n) {
        lemma_ok_frames_nest(program, whole, m);
    }
}

/// A compiled program never finds the value stack too short, and never
/// returns without a caller: no run of it ends with a stack underflow or a
/// call stack underflow, whatever its budget of steps.
pub proof fn lemma_compiled_never_underflows(expr: ExprView, budget: nat)
    ensures
        ({
            let end = outcome(emit(expr, Scope::Global, ExprPos::Tail, 0), initial(), budget);
            &&& end != Err::<ValueView, Fault>(Fault::StackUnderflow)
            &&& end != Err::<ValueView, Fault>(Fault::CallStackUnderflow)
        }),
{
    let program = emit(expr, Scope::Global, ExprPos::Tail, 0);
    let whole = plan(expr, Scope::Global, 0).push(spot(Scope::Global, 1));
    lemma_program_safe(expr);
    lemma_initial_ok(program, whole);
    lemma_outcome_has_operands(program, whole, initial(), budget);
}

} // verus!
