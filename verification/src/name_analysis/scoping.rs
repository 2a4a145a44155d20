//! What resolving an expression leaves as it was.

use vstd::prelude::*;
use crate::ast;
use crate::ast::nameless::ExprView;
use crate::name_analysis::{capture, resolve, resolve_proc, Context, Progress, Resolution};
use crate::table::Bindings;
use crate::offset::{Capture, StackOffset};

verus! {

/// Capturing a name adds no procedure and takes none away.
pub proof fn lemma_capture_keeps_depth(
    enclosing: Seq<Option<Bindings<StackOffset>>>,
    captures: Seq<Bindings<Capture>>,
    name: Seq<char>,
    depth: nat,
)
    requires
        depth < captures.len(),
    ensures
        capture(enclosing, captures, name, depth).1.len() == captures.len(),
    decreases depth,
{
    if depth > 0 {
        lemma_capture_keeps_depth(enclosing, captures, name, (depth - 1) as nat);
    }
}

/// Resolving an expression leaves as many enclosing procedures as there
/// were.
pub proof fn lemma_resolve_keeps_depth(expr: ast::ExprView, context: Context, progress: Progress)
    requires
        context.enclosing.len() == progress.captures.len(),
    ensures
        resolve(expr, context, progress) matches Resolution::Resolved { progress: after, .. }
            ==> after.captures.len() == progress.captures.len(),
    decreases expr, 0nat,
{
    match expr {
        ast::ExprView::Name(name) => {
            if context.enclosing.len() > 0 {
                lemma_capture_keeps_depth(
                    context.enclosing,
                    progress.captures,
                    name,
                    (context.enclosing.len() - 1) as nat,
                );
            }
        },
        ast::ExprView::Negate(inner) => {
            lemma_resolve_keeps_depth(*inner, context, progress);
        },
        ast::ExprView::IsZero(inner) => {
            lemma_resolve_keeps_depth(*inner, context, progress);
        },
        ast::ExprView::Subtract { left, right } => {
            lemma_resolve_keeps_depth(*left, context, progress);
            if let Resolution::Resolved { progress: after, .. } = resolve(
                *left,
                context,
                progress,
            ) {
                lemma_resolve_keeps_depth(*right, context, after);
            }
        },
        ast::ExprView::Call { proc, arg } => {
            lemma_resolve_keeps_depth(*proc, context, progress);
            if let Resolution::Resolved { progress: after, .. } = resolve(
                *proc,
                context,
                progress,
            ) {
                lemma_resolve_keeps_depth(*arg, context, after);
            }
        },
        ast::ExprView::Assert { test, body, .. } => {
            lemma_resolve_keeps_depth(*test, context, progress);
            if let Resolution::Resolved { progress: after, .. } = resolve(
                *test,
                context,
                progress,
            ) {
                lemma_resolve_keeps_depth(*body, context, after.popped());
            }
        },
        ast::ExprView::If { test, consequent, alternate } => {
            lemma_resolve_keeps_depth(*test, context, progress);
            if let Resolution::Resolved { progress: after, .. } = resolve(
                *test,
                context,
                progress,
            ) {
                let height = (after.height - 1) as nat;
                lemma_resolve_keeps_depth(*alternate, context, after.at(height));
                if let Resolution::Resolved { progress: then, .. } = resolve(
                    *alternate,
                    context,
                    after.at(height),
                ) {
                    lemma_resolve_keeps_depth(*consequent, context, then.at(height));
                }
            }
        },
        ast::ExprView::Let { name, expr: bound, body } => {
            lemma_resolve_keeps_depth(*bound, context, progress);
            if let Resolution::Resolved { progress: after, .. } = resolve(
                *bound,
                context,
                progress,
            ) {
                lemma_resolve_keeps_depth(
                    *body,
                    context.bind(name, StackOffset((after.height - 1) as usize)),
                    after,
                );
            }
        },
        ast::ExprView::LetRec { name, param, proc_body, let_body, .. } => {
            lemma_resolve_proc_keeps_depth(name, param.name, *proc_body, context, progress);
            if let Resolution::Resolved { progress: after, .. } = resolve_proc(
                name,
                param.name,
                *proc_body,
                context,
                progress,
            ) {
                lemma_resolve_keeps_depth(
                    *let_body,
                    context.bind(name, StackOffset((after.height - 1) as usize)),
                    after,
                );
            }
        },
        ast::ExprView::Proc { param, body } => {
            lemma_resolve_proc_keeps_depth(Seq::empty(), param.name, *body, context, progress);
        },
        _ => {},
    }
}

/// Resolving a procedure leaves as many enclosing procedures as there were.
pub proof fn lemma_resolve_proc_keeps_depth(
    proc_name: Seq<char>,
    param_name: Seq<char>,
    body: ast::ExprView,
    context: Context,
    progress: Progress,
)
    requires
        context.enclosing.len() == progress.captures.len(),
    ensures
        resolve_proc(proc_name, param_name, body, context, progress) matches Resolution::Resolved {
            progress: after,
            ..
        } ==> after.captures.len() == progress.captures.len(),
    decreases body, 1nat,
{
    let inner = Progress { height: 2, captures: progress.captures.push(Seq::empty()) };
    lemma_resolve_keeps_depth(body, context.enter(proc_name, param_name), inner);
}

/// Outside every procedure, exchanging the branches of a conditional
/// exchanges the resolved branches and changes nothing else: each branch
/// resolves to the same nameless expression whether it comes first or
/// second. If a name of either branch is bound nowhere, both conditionals
/// fail to resolve.
pub proof fn lemma_exchanged_branches_resolve(
    test: ast::ExprView,
    first: ast::ExprView,
    second: ast::ExprView,
    context: Context,
    progress: Progress,
)
    requires
        context.enclosing.len() == 0,
        progress.captures.len() == 0,
    ensures
        match resolve(
            ast::ExprView::If {
                test: Box::new(test),
                consequent: Box::new(first),
                alternate: Box::new(second),
            },
            context,
            progress,
        ) {
            Resolution::Resolved { expr, .. } => expr matches ExprView::If {
                test: head,
                consequent: one,
                alternate: two,
            } && resolve(
                ast::ExprView::If {
                    test: Box::new(test),
                    consequent: Box::new(second),
                    alternate: Box::new(first),
                },
                context,
                progress,
            ) matches Resolution::Resolved { expr: exchanged, .. } && exchanged == (ExprView::If {
                test: head,
                consequent: two,
                alternate: one,
            }),
            Resolution::Undefined { .. } => resolve(
                ast::ExprView::If {
                    test: Box::new(test),
                    consequent: Box::new(second),
                    alternate: Box::new(first),
                },
                context,
                progress,
            ) is Undefined,
        },
{
    lemma_resolve_keeps_depth(test, context, progress);
    if let Resolution::Resolved { progress: after, .. } = resolve(test, context, progress) {
        let here = after.at((after.height - 1) as nat);
        lemma_resolve_keeps_depth(first, context, here);
        lemma_resolve_keeps_depth(second, context, here);
        if let Resolution::Resolved { progress: then, .. } = resolve(first, context, here) {
            assert(then.captures =~= here.captures);
            assert(then.at(here.height) == here);
        }
        if let Resolution::Resolved { progress: then, .. } = resolve(second, context, here) {
            assert(then.captures =~= here.captures);
            assert(then.at(here.height) == here);
        }
    }
}

/// How many values an expression leaves on the stack: its own, and one for
/// every name that it binds outside a procedure, which stays below the value
/// of the body. Of a conditional only the consequent counts.
pub open spec fn rise(expr: ast::ExprView) -> nat
    decreases expr,
{
    match expr {
        ast::ExprView::Negate(inner) => rise(*inner),
        ast::ExprView::IsZero(inner) => rise(*inner),
        ast::ExprView::Subtract { left, right } => (rise(*left) + rise(*right) - 1) as nat,
        ast::ExprView::Call { proc, arg } => (rise(*proc) + rise(*arg) - 1) as nat,
        ast::ExprView::Assert { test, body, .. } => (rise(*test) - 1 + rise(*body)) as nat,
        ast::ExprView::If { test, consequent, .. } => (rise(*test) - 1 + rise(*consequent)) as nat,
        ast::ExprView::Let { expr, body, .. } => rise(*expr) + rise(*body),
        ast::ExprView::LetRec { let_body, .. } => 1 + rise(*let_body),
        _ => 1,
    }
}

/// Whether an expression binds no name outside a procedure.
pub open spec fn binds_nothing(expr: ast::ExprView) -> bool
    decreases expr,
{
    match expr {
        ast::ExprView::Negate(inner) => binds_nothing(*inner),
        ast::ExprView::IsZero(inner) => binds_nothing(*inner),
        ast::ExprView::Subtract { left, right } => binds_nothing(*left) && binds_nothing(*right),
        ast::ExprView::Call { proc, arg } => binds_nothing(*proc) && binds_nothing(*arg),
        ast::ExprView::Assert { test, body, .. } => binds_nothing(*test) && binds_nothing(*body),
        ast::ExprView::If { test, consequent, alternate } => binds_nothing(*test)
            && binds_nothing(*consequent) && binds_nothing(*alternate),
        ast::ExprView::Let { .. } => false,
        ast::ExprView::LetRec { .. } => false,
        _ => true,
    }
}

/// Every expression leaves at least its value.
pub proof fn lemma_rise_positive(expr: ast::ExprView)
    ensures
        rise(expr) >= 1,
        binds_nothing(expr) ==> rise(expr) == 1,
    decreases expr,
{
    match expr {
        ast::ExprView::Negate(inner) => lemma_rise_positive(*inner),
        ast::ExprView::IsZero(inner) => lemma_rise_positive(*inner),
        ast::ExprView::Subtract { left, right } => {
            lemma_rise_positive(*left);
            lemma_rise_positive(*right);
        },
        ast::ExprView::Call { proc, arg } => {
            lemma_rise_positive(*proc);
            lemma_rise_positive(*arg);
        },
        ast::ExprView::Assert { test, body, .. } => {
            lemma_rise_positive(*test);
            lemma_rise_positive(*body);
        },
        ast::ExprView::If { test, consequent, .. } => {
            lemma_rise_positive(*test);
            lemma_rise_positive(*consequent);
        },
        ast::ExprView::Let { expr: bound, body, .. } => {
            lemma_rise_positive(*bound);
            lemma_rise_positive(*body);
        },
        ast::ExprView::LetRec { let_body, .. } => lemma_rise_positive(*let_body),
        _ => {},
    }
}

/// Resolving an expression raises the height of the frame by what the
/// expression leaves on the stack: by one, if the expression binds no name
/// outside a procedure.
pub proof fn lemma_resolve_rises(expr: ast::ExprView, context: Context, progress: Progress)
    ensures
        resolve(expr, context, progress) matches Resolution::Resolved { progress: after, .. }
            ==> after.height == progress.height + rise(expr),
    decreases expr,
{
    lemma_rise_positive(expr);
    match expr {
        ast::ExprView::Negate(inner) => {
            lemma_resolve_rises(*inner, context, progress);
        },
        ast::ExprView::IsZero(inner) => {
            lemma_resolve_rises(*inner, context, progress);
        },
        ast::ExprView::Subtract { left, right } => {
            lemma_rise_positive(*left);
            lemma_rise_positive(*right);
            lemma_resolve_rises(*left, context, progress);
            if let Resolution::Resolved { progress: after, .. } = resolve(
                *left,
                context,
                progress,
            ) {
                lemma_resolve_rises(*right, context, after);
            }
        },
        ast::ExprView::Call { proc, arg } => {
            lemma_rise_positive(*proc);
            lemma_rise_positive(*arg);
            lemma_resolve_rises(*proc, context, progress);
            if let Resolution::Resolved { progress: after, .. } = resolve(
                *proc,
                context,
                progress,
            ) {
                lemma_resolve_rises(*arg, context, after);
            }
        },
        ast::ExprView::Assert { test, body, .. } => {
            lemma_rise_positive(*test);
            lemma_resolve_rises(*test, context, progress);
            if let Resolution::Resolved { progress: after, .. } = resolve(
                *test,
                context,
                progress,
            ) {
                lemma_resolve_rises(*body, context, after.popped());
            }
        },
        ast::ExprView::If { test, consequent, alternate } => {
            lemma_rise_positive(*test);
            lemma_resolve_rises(*test, context, progress);
            if let Resolution::Resolved { progress: after, .. } = resolve(
                *test,
                context,
                progress,
            ) {
                let height = (after.height - 1) as nat;
                if let Resolution::Resolved { progress: then, .. } = resolve(
                    *alternate,
                    context,
                    after.at(height),
                ) {
                    lemma_resolve_rises(*consequent, context, then.at(height));
                }
            }
        },
        ast::ExprView::Let { name, expr: bound, body } => {
            lemma_resolve_rises(*bound, context, progress);
            if let Resolution::Resolved { progress: after, .. } = resolve(
                *bound,
                context,
                progress,
            ) {
                lemma_resolve_rises(
                    *body,
                    context.bind(name, StackOffset((after.height - 1) as usize)),
                    after,
                );
            }
        },
        ast::ExprView::LetRec { name, param, proc_body, let_body, .. } => {
            if let Resolution::Resolved { progress: after, .. } = resolve_proc(
                name,
                param.name,
                *proc_body,
                context,
                progress,
            ) {
                lemma_resolve_rises(
                    *let_body,
                    context.bind(name, StackOffset((after.height - 1) as usize)),
                    after,
                );
            }
        },
        ast::ExprView::Proc { param, body } => {
            assert(resolve(expr, context, progress) == resolve_proc(
                Seq::empty(),
                param.name,
                *body,
                context,
                progress,
            ));
        },
        ast::ExprView::Name(name) => {
            assert(resolve(expr, context, progress) == crate::name_analysis::resolve_name(
                name,
                context,
                progress,
            ));
        },
        ast::ExprView::LiteralInt(_) => {},
        ast::ExprView::LiteralBool(_) => {},
    }
}

/// Whether `before` is the beginning of `after`.
pub open spec fn begins<T>(after: Seq<T>, before: Seq<T>) -> bool {
    &&& before.len() <= after.len()
    &&& forall|i: int| 0 <= i < before.len() ==> #[trigger] after[i] == before[i]
}

/// Whether every table of `after` begins with the table of `before` for the
/// same procedure: what a procedure captures is added to and never changed.
pub open spec fn grown(after: Seq<Bindings<Capture>>, before: Seq<Bindings<Capture>>) -> bool {
    &&& after.len() == before.len()
    &&& forall|d: int| 0 <= d < before.len() ==> begins(#[trigger] after[d], before[d])
}

/// What is captured stays captured: each table is added to and never
/// changed.
proof fn lemma_grown_twice(
    first: Seq<Bindings<Capture>>,
    second: Seq<Bindings<Capture>>,
    third: Seq<Bindings<Capture>>,
)
    requires
        grown(second, first),
        grown(third, second),
    ensures
        grown(third, first),
{
    assert forall|d: int| 0 <= d < first.len() implies begins(#[trigger] third[d], first[d]) by {
        assert(begins(second[d], first[d]));
        assert(begins(third[d], second[d]));
        assert forall|i: int| 0 <= i < first[d].len() implies #[trigger] third[d][i]
            == first[d][i] by {
            assert(second[d][i] == first[d][i]);
            assert(third[d][i] == second[d][i]);
        }
    }
}

/// A name that is a local of the scope in which the procedure `depth`
/// stands is captured from the slot of that local: the procedure finds it
/// at the offset that is returned, and its capture there says `Local` and
/// the slot.
pub proof fn lemma_capture_recipe(
    enclosing: Seq<Option<Bindings<StackOffset>>>,
    captures: Seq<Bindings<Capture>>,
    name: Seq<char>,
    depth: nat,
)
    requires
        depth < captures.len(),
        captures[depth as int].len() < usize::MAX,
    ensures
        crate::name_analysis::local(enclosing[depth as int], name) matches Some(slot) ==> {
            let (found, after) = capture(enclosing, captures, name, depth);
            &&& found matches Some(offset)
            &&& offset.0 < after[depth as int].len()
            &&& after[depth as int][offset.0 as int] == (name, Capture::Local(slot))
        },
{
}

/// Capturing a name adds to what the enclosing procedures capture and
/// changes nothing of it.
pub proof fn lemma_capture_grows(
    enclosing: Seq<Option<Bindings<StackOffset>>>,
    captures: Seq<Bindings<Capture>>,
    name: Seq<char>,
    depth: nat,
)
    requires
        depth < captures.len(),
    ensures
        grown(capture(enclosing, captures, name, depth).1, captures),
    decreases depth,
{
    let (found, after) = capture(enclosing, captures, name, depth);
    if crate::name_analysis::local(enclosing[depth as int], name) is None
        && crate::table::find(captures[depth as int], name) is None && depth > 0 {
        lemma_capture_grows(enclosing, captures, name, (depth - 1) as nat);
        let (_, middle) = capture(enclosing, captures, name, (depth - 1) as nat);
        assert forall|d: int| 0 <= d < captures.len() implies begins(
            #[trigger] after[d],
            captures[d],
        ) by {
            assert(begins(middle[d], captures[d]));
        }
    } else {
        assert forall|d: int| 0 <= d < captures.len() implies begins(
            #[trigger] after[d],
            captures[d],
        ) by {}
    }
}

/// Resolving an expression adds to what the enclosing procedures capture
/// and changes nothing of it: a capture keeps its offset and its recipe from
/// the reference that made it to the end of the procedure.
pub proof fn lemma_resolve_grows(expr: ast::ExprView, context: Context, progress: Progress)
    requires
        context.enclosing.len() == progress.captures.len(),
    ensures
        resolve(expr, context, progress) matches Resolution::Resolved { progress: after, .. }
            ==> grown(after.captures, progress.captures),
    decreases expr, 0nat,
{
    let start = progress.captures;
    assert(grown(start, start)) by {
        assert forall|d: int| 0 <= d < start.len() implies begins(#[trigger] start[d], start[d]) by {}
    }
    match expr {
        ast::ExprView::Name(name) => {
            if context.enclosing.len() > 0 {
                lemma_capture_grows(
                    context.enclosing,
                    progress.captures,
                    name,
                    (context.enclosing.len() - 1) as nat,
                );
            }
        },
        ast::ExprView::Negate(inner) => {
            lemma_resolve_grows(*inner, context, progress);
        },
        ast::ExprView::IsZero(inner) => {
            lemma_resolve_grows(*inner, context, progress);
        },
        ast::ExprView::Subtract { left, right } => {
            lemma_resolve_grows(*left, context, progress);
            if let Resolution::Resolved { progress: after, .. } = resolve(
                *left,
                context,
                progress,
            ) {
                lemma_resolve_grows(*right, context, after);
                if let Resolution::Resolved { progress: last, .. } = resolve(
                    *right,
                    context,
                    after,
                ) {
                    lemma_grown_twice(start, after.captures, last.captures);
                }
            }
        },
        ast::ExprView::Call { proc, arg } => {
            lemma_resolve_grows(*proc, context, progress);
            if let Resolution::Resolved { progress: after, .. } = resolve(
                *proc,
                context,
                progress,
            ) {
                lemma_resolve_grows(*arg, context, after);
                if let Resolution::Resolved { progress: last, .. } = resolve(
                    *arg,
                    context,
                    after,
                ) {
                    lemma_grown_twice(start, after.captures, last.captures);
                }
            }
        },
        ast::ExprView::Assert { test, body, .. } => {
            lemma_resolve_grows(*test, context, progress);
            if let Resolution::Resolved { progress: after, .. } = resolve(
                *test,
                context,
                progress,
            ) {
                lemma_resolve_grows(*body, context, after.popped());
                if let Resolution::Resolved { progress: last, .. } = resolve(
                    *body,
                    context,
                    after.popped(),
                ) {
                    lemma_grown_twice(start, after.captures, last.captures);
                }
            }
        },
        ast::ExprView::If { test, consequent, alternate } => {
            lemma_resolve_grows(*test, context, progress);
            if let Resolution::Resolved { progress: after, .. } = resolve(
                *test,
                context,
                progress,
            ) {
                let height = (after.height - 1) as nat;
                lemma_resolve_grows(*alternate, context, after.at(height));
                if let Resolution::Resolved { progress: then, .. } = resolve(
                    *alternate,
                    context,
                    after.at(height),
                ) {
                    lemma_grown_twice(start, after.captures, then.captures);
                    lemma_resolve_grows(*consequent, context, then.at(height));
                    if let Resolution::Resolved { progress: last, .. } = resolve(
                        *consequent,
                        context,
                        then.at(height),
                    ) {
                        lemma_grown_twice(start, then.captures, last.captures);
                    }
                }
            }
        },
        ast::ExprView::Let { name, expr: bound, body } => {
            lemma_resolve_grows(*bound, context, progress);
            if let Resolution::Resolved { progress: after, .. } = resolve(
                *bound,
                context,
                progress,
            ) {
                let inner = context.bind(name, StackOffset((after.height - 1) as usize));
                lemma_resolve_grows(*body, inner, after);
                if let Resolution::Resolved { progress: last, .. } = resolve(*body, inner, after) {
                    lemma_grown_twice(start, after.captures, last.captures);
                }
            }
        },
        ast::ExprView::LetRec { name, param, proc_body, let_body, .. } => {
            lemma_resolve_proc_grows(name, param.name, *proc_body, context, progress);
            if let Resolution::Resolved { progress: after, .. } = resolve_proc(
                name,
                param.name,
                *proc_body,
                context,
                progress,
            ) {
                let inner = context.bind(name, StackOffset((after.height - 1) as usize));
                lemma_resolve_grows(*let_body, inner, after);
                if let Resolution::Resolved { progress: last, .. } = resolve(
                    *let_body,
                    inner,
                    after,
                ) {
                    lemma_grown_twice(start, after.captures, last.captures);
                }
            }
        },
        ast::ExprView::Proc { param, body } => {
            lemma_resolve_proc_grows(Seq::empty(), param.name, *body, context, progress);
        },
        _ => {},
    }
}

/// Resolving a procedure adds to what the enclosing procedures capture and
/// changes nothing of it.
pub proof fn lemma_resolve_proc_grows(
    proc_name: Seq<char>,
    param_name: Seq<char>,
    body: ast::ExprView,
    context: Context,
    progress: Progress,
)
    requires
        context.enclosing.len() == progress.captures.len(),
    ensures
        resolve_proc(proc_name, param_name, body, context, progress) matches Resolution::Resolved {
            progress: after,
            ..
        } ==> grown(after.captures, progress.captures),
    decreases body, 1nat,
{
    let inner = Progress { height: 2, captures: progress.captures.push(Seq::empty()) };
    lemma_resolve_grows(body, context.enter(proc_name, param_name), inner);
    if let Resolution::Resolved { progress: done, .. } = resolve(
        body,
        context.enter(proc_name, param_name),
        inner,
    ) {
        let after = done.captures.drop_last();
        assert forall|d: int| 0 <= d < progress.captures.len() implies begins(
            #[trigger] after[d],
            progress.captures[d],
        ) by {
            assert(begins(done.captures[d], inner.captures[d]));
        }
    }
}

} // verus!
