//! Analysis of how identifier names are used in a program.
//!
//! The resolver rewrites a named expression into a nameless one. It follows
//! the height that the value stack will have when the program runs, so that
//! every name can be replaced by the stack slot that will hold its value:
//! a slot of the current frame, a slot of the outermost frame, or, for a name
//! of an enclosing procedure, a slot of the captures of the current one.
//!
//! `resolve` is the definition; `resolve_names` computes it.

use vstd::prelude::*;
use vstd::string::StringExecFns;
use crate::ast;
use crate::ast::nameless::{self, CaptureOffset, ExprView, StackOffset};
use crate::table::{find, find_value, Bindings, Table};

pub mod scoping;

verus! {

/// What is visible at a point of a program. It is the same before and after
/// an expression is resolved.
pub struct Context {
    /// The bindings of the outermost scope, outside every procedure.
    pub globals: Bindings<StackOffset>,
    /// The bindings of the current procedure; none outside every procedure.
    pub locals: Option<Bindings<StackOffset>>,
    /// For each enclosing procedure, outermost first, the locals of the scope
    /// in which the procedure stands.
    pub enclosing: Seq<Option<Bindings<StackOffset>>>,
}

/// What changes while an expression is resolved.
pub struct Progress {
    /// The height of the current frame.
    pub height: nat,
    /// For each enclosing procedure, outermost first, what it captures so
    /// far, under the names by which it was captured.
    pub captures: Seq<Bindings<nameless::Capture>>,
}

/// The result of resolving an expression.
pub enum Resolution {
    /// Every name was found.
    Resolved { expr: ExprView, progress: Progress },
    /// The first name, in the order of evaluation, that is bound nowhere.
    Undefined { name: Seq<char> },
}

/// The value of `name` in a procedure's locals, if there are any.
pub open spec fn local<T>(locals: Option<Bindings<T>>, name: Seq<char>) -> Option<T> {
    match locals {
        Some(bindings) => find_value(bindings, name),
        None => None,
    }
}

/// The values of a table, oldest first.
pub open spec fn values<T>(bindings: Bindings<T>) -> Seq<T> {
    Seq::new(bindings.len(), |i: int| bindings[i].1)
}

/// The table `captures[depth]` with one more binding.
pub open spec fn with_capture(
    captures: Seq<Bindings<nameless::Capture>>,
    depth: int,
    name: Seq<char>,
    capture: nameless::Capture,
) -> Seq<Bindings<nameless::Capture>> {
    captures.update(depth, captures[depth].push((name, capture)))
}

/// Makes `name` a capture of the enclosing procedure `depth`, and says at
/// which offset of its captures the procedure will find the value.
///
/// A local of the scope in which the procedure stands is captured from the
/// stack, each time anew. Otherwise a name that the procedure captures
/// already is found again. Otherwise the name is captured by the next
/// procedure outwards, and taken from the captures of that one.
pub open spec fn capture(
    enclosing: Seq<Option<Bindings<StackOffset>>>,
    captures: Seq<Bindings<nameless::Capture>>,
    name: Seq<char>,
    depth: nat,
) -> (Option<CaptureOffset>, Seq<Bindings<nameless::Capture>>)
    decreases depth,
{
    match local(enclosing[depth as int], name) {
        Some(offset) => (
            Some(CaptureOffset(captures[depth as int].len() as usize)),
            with_capture(captures, depth as int, name, nameless::Capture::Local(offset)),
        ),
        None => match find(captures[depth as int], name) {
            Some(known) => (Some(CaptureOffset(known as usize)), captures),
            None => if depth > 0 {
                let (outer, captures) = capture(enclosing, captures, name, (depth - 1) as nat);
                match outer {
                    Some(outer) => (
                        Some(CaptureOffset(captures[depth as int].len() as usize)),
                        with_capture(
                            captures,
                            depth as int,
                            name,
                            nameless::Capture::Capture(outer),
                        ),
                    ),
                    None => (None, captures),
                }
            } else {
                (None, captures)
            },
        },
    }
}

impl Context {
    /// The context outside every procedure, with nothing bound.
    pub open spec fn outermost() -> Context {
        Context { globals: Seq::empty(), locals: None, enclosing: Seq::empty() }
    }

    /// The context with `name` bound to `offset` in the current scope.
    pub open spec fn bind(self, name: Seq<char>, offset: StackOffset) -> Context {
        match self.locals {
            Some(locals) => Context { locals: Some(locals.push((name, offset))), ..self },
            None => Context { globals: self.globals.push((name, offset)), ..self },
        }
    }

    /// The context of the body of a procedure that stands in this context.
    /// Slot 0 of the new frame holds the procedure itself, slot 1 its
    /// argument.
    pub open spec fn enter(self, proc_name: Seq<char>, param_name: Seq<char>) -> Context {
        Context {
            globals: self.globals,
            locals: Some(seq![(proc_name, StackOffset(0)), (param_name, StackOffset(1))]),
            enclosing: self.enclosing.push(self.locals),
        }
    }
}

impl Progress {
    /// The state in which the resolution of a program begins.
    pub open spec fn start() -> Progress {
        Progress { height: 0, captures: Seq::empty() }
    }

    /// The same captures at another height.
    pub open spec fn at(self, height: nat) -> Progress {
        Progress { height, captures: self.captures }
    }

    /// One value more on the stack.
    pub open spec fn pushed(self) -> Progress {
        self.at(self.height + 1)
    }

    /// One value less on the stack.
    pub open spec fn popped(self) -> Progress {
        self.at((self.height - 1) as nat)
    }
}

/// Resolves a reference to `name`: a local, else a capture, else a global.
pub open spec fn resolve_name(name: Seq<char>, context: Context, progress: Progress) -> Resolution {
    let height = progress.height + 1;
    match local(context.locals, name) {
        Some(offset) => Resolution::Resolved {
            expr: ExprView::Local(offset),
            progress: progress.pushed(),
        },
        None => {
            let (captured, captures) = if context.enclosing.len() > 0 {
                capture(
                    context.enclosing,
                    progress.captures,
                    name,
                    (context.enclosing.len() - 1) as nat,
                )
            } else {
                (None, progress.captures)
            };
            match captured {
                Some(offset) => Resolution::Resolved {
                    expr: ExprView::Capture(offset),
                    progress: Progress { height, captures },
                },
                None => match find_value(context.globals, name) {
                    Some(offset) => Resolution::Resolved {
                        expr: ExprView::Global(offset),
                        progress: Progress { height, captures },
                    },
                    None => Resolution::Undefined { name },
                },
            }
        },
    }
}

/// Resolves a procedure with the body `body`. Inside, `proc_name` is the
/// procedure itself and `param_name` its argument.
pub open spec fn resolve_proc(
    proc_name: Seq<char>,
    param_name: Seq<char>,
    body: ast::ExprView,
    context: Context,
    progress: Progress,
) -> Resolution
    decreases body, 1nat,
{
    let inner = Progress { height: 2, captures: progress.captures.push(Seq::empty()) };
    match resolve(body, context.enter(proc_name, param_name), inner) {
        Resolution::Undefined { name } => Resolution::Undefined { name },
        Resolution::Resolved { expr, progress: done } => Resolution::Resolved {
            expr: ExprView::Proc {
                body: Box::new(expr),
                captures: values(done.captures.last()),
            },
            progress: Progress {
                height: progress.height + 1,
                captures: done.captures.drop_last(),
            },
        },
    }
}

/// Resolves `expr` in `context`, starting from `progress`.
pub open spec fn resolve(expr: ast::ExprView, context: Context, progress: Progress) -> Resolution
    decreases expr, 0nat,
{
    match expr {
        ast::ExprView::LiteralInt(value) => Resolution::Resolved {
            expr: ExprView::LiteralInt(value),
            progress: progress.pushed(),
        },
        ast::ExprView::LiteralBool(value) => Resolution::Resolved {
            expr: ExprView::LiteralBool(value),
            progress: progress.pushed(),
        },
        ast::ExprView::Name(name) => resolve_name(name, context, progress),
        ast::ExprView::Negate(inner) => match resolve(*inner, context, progress) {
            Resolution::Undefined { name } => Resolution::Undefined { name },
            Resolution::Resolved { expr, progress } => Resolution::Resolved {
                expr: ExprView::Negate(Box::new(expr)),
                progress,
            },
        },
        ast::ExprView::IsZero(inner) => match resolve(*inner, context, progress) {
            Resolution::Undefined { name } => Resolution::Undefined { name },
            Resolution::Resolved { expr, progress } => Resolution::Resolved {
                expr: ExprView::IsZero(Box::new(expr)),
                progress,
            },
        },
        ast::ExprView::Subtract { left, right } => match resolve(*left, context, progress) {
            Resolution::Undefined { name } => Resolution::Undefined { name },
            Resolution::Resolved { expr: left, progress } => match resolve(
                *right,
                context,
                progress,
            ) {
                Resolution::Undefined { name } => Resolution::Undefined { name },
                Resolution::Resolved { expr: right, progress } => Resolution::Resolved {
                    expr: ExprView::Subtract { left: Box::new(left), right: Box::new(right) },
                    progress: progress.popped(),
                },
            },
        },
        ast::ExprView::Call { proc, arg } => match resolve(*proc, context, progress) {
            Resolution::Undefined { name } => Resolution::Undefined { name },
            Resolution::Resolved { expr: proc, progress } => match resolve(
                *arg,
                context,
                progress,
            ) {
                Resolution::Undefined { name } => Resolution::Undefined { name },
                Resolution::Resolved { expr: arg, progress } => Resolution::Resolved {
                    expr: ExprView::Call { proc: Box::new(proc), arg: Box::new(arg) },
                    progress: progress.popped(),
                },
            },
        },
        ast::ExprView::Assert { line, test, body } => match resolve(*test, context, progress) {
            Resolution::Undefined { name } => Resolution::Undefined { name },
            Resolution::Resolved { expr: test, progress } => match resolve(
                *body,
                context,
                progress.popped(),
            ) {
                Resolution::Undefined { name } => Resolution::Undefined { name },
                Resolution::Resolved { expr: body, progress } => Resolution::Resolved {
                    expr: ExprView::Assert { line, test: Box::new(test), body: Box::new(body) },
                    progress,
                },
            },
        },
        // Both branches start at the height that the test leaves. The
        // alternate is resolved first; the height after the conditional is
        // that after the consequent.
        ast::ExprView::If { test, consequent, alternate } => match resolve(*test, context, progress) {
            Resolution::Undefined { name } => Resolution::Undefined { name },
            Resolution::Resolved { expr: test, progress } => {
                let height = (progress.height - 1) as nat;
                match resolve(*alternate, context, progress.at(height)) {
                    Resolution::Undefined { name } => Resolution::Undefined { name },
                    Resolution::Resolved { expr: alternate, progress } => match resolve(
                        *consequent,
                        context,
                        progress.at(height),
                    ) {
                        Resolution::Undefined { name } => Resolution::Undefined { name },
                        Resolution::Resolved { expr: consequent, progress } => {
                            Resolution::Resolved {
                                expr: ExprView::If {
                                    test: Box::new(test),
                                    consequent: Box::new(consequent),
                                    alternate: Box::new(alternate),
                                },
                                progress,
                            }
                        },
                    },
                }
            },
        },
        // The value of `expr` stays on the stack, in the slot that `name`
        // stands for in the body.
        ast::ExprView::Let { name, expr, body } => match resolve(*expr, context, progress) {
            Resolution::Undefined { name } => Resolution::Undefined { name },
            Resolution::Resolved { expr, progress } => match resolve(
                *body,
                context.bind(name, StackOffset((progress.height - 1) as usize)),
                progress,
            ) {
                Resolution::Undefined { name } => Resolution::Undefined { name },
                Resolution::Resolved { expr: body, progress } => Resolution::Resolved {
                    expr: ExprView::Let { expr: Box::new(expr), body: Box::new(body) },
                    progress,
                },
            },
        },
        // A recursive procedure is a `Let` of a procedure that finds itself
        // in slot 0 of its own frame.
        ast::ExprView::LetRec { name, param, proc_body, let_body, .. } => match resolve_proc(
            name,
            param.name,
            *proc_body,
            context,
            progress,
        ) {
            Resolution::Undefined { name } => Resolution::Undefined { name },
            Resolution::Resolved { expr, progress } => match resolve(
                *let_body,
                context.bind(name, StackOffset((progress.height - 1) as usize)),
                progress,
            ) {
                Resolution::Undefined { name } => Resolution::Undefined { name },
                Resolution::Resolved { expr: body, progress } => Resolution::Resolved {
                    expr: ExprView::Let { expr: Box::new(expr), body: Box::new(body) },
                    progress,
                },
            },
        },
        ast::ExprView::Proc { param, body } => resolve_proc(
            Seq::empty(),
            param.name,
            *body,
            context,
            progress,
        ),
    }
}

/// The message for a name that is bound nowhere.
pub open spec fn undefined_name(name: Seq<char>) -> Seq<char> {
    "undefined name \""@ + name + "\""@
}

/// The bindings of a procedure's locals, if there are any.
pub open spec fn bindings_of<T>(locals: Option<Table<T>>) -> Option<Bindings<T>> {
    match locals {
        Some(table) => Some(table@),
        None => None,
    }
}

/// The value of `name` in a procedure's locals, if there are any.
fn lookup<'a, T: Clone>(bindings: &'a Option<Table<T>>, name: &str) -> (found: Option<&'a T>)
    ensures
        match local(bindings_of(*bindings), name@) {
            Some(value) => found == Some(&value),
            None => found is None,
        },
{
    match bindings {
        Some(bindings) => bindings.lookup(name),
        None => None,
    }
}

/// What a procedure captures, under the names by which it was captured.
pub struct CaptureTable(Table<nameless::Capture>);

impl View for CaptureTable {
    type V = Bindings<nameless::Capture>;

    closed spec fn view(&self) -> Bindings<nameless::Capture> {
        self.0@
    }
}

impl CaptureTable {
    pub fn new() -> (table: Self)
        ensures
            table@ == Seq::<(Seq<char>, nameless::Capture)>::empty(),
    {
        CaptureTable(Table::new())
    }

    fn add_local_capture(&mut self, name: String, stack_offset: StackOffset) -> (offset:
        CaptureOffset)
        ensures
            final(self)@ == old(self)@.push((name@, nameless::Capture::Local(stack_offset))),
            offset == CaptureOffset(old(self)@.len() as usize),
    {
        let capture = nameless::Capture::Local(stack_offset);
        self.push(name, capture)
    }

    fn add_capture_capture(&mut self, name: String, outer_capture_offset: CaptureOffset) -> (offset:
        CaptureOffset)
        ensures
            final(self)@ == old(self)@.push(
                (name@, nameless::Capture::Capture(outer_capture_offset)),
            ),
            offset == CaptureOffset(old(self)@.len() as usize),
    {
        let capture = nameless::Capture::Capture(outer_capture_offset);
        self.push(name, capture)
    }

    /// The offset of the capture that goes by `name`, if there is one.
    pub fn lookup(&self, name: &str) -> (found: Option<CaptureOffset>)
        ensures
            match find(self@, name@) {
                Some(i) => found == Some(CaptureOffset(i as usize)),
                None => found is None,
            },
    {
        match self.0.lookup_offset(name) {
            Some(offset) => Some(CaptureOffset(offset)),
            None => None,
        }
    }

    /// Adds a capture, and gives the offset by which it will be found.
    pub fn push(&mut self, name: String, capture: nameless::Capture) -> (offset: CaptureOffset)
        ensures
            final(self)@ == old(self)@.push((name@, capture)),
            offset == CaptureOffset(old(self)@.len() as usize),
    {
        self.0.push(name, capture);
        CaptureOffset(self.0.len() - 1)
    }

    /// What is captured, in the order of the offsets.
    fn captures(&self) -> (list: Vec<nameless::Capture>)
        ensures
            list@ == values(self@),
    {
        let mut list: Vec<nameless::Capture> = Vec::new();
        let mut i: usize = 0;
        while i < self.0.items.len()
            invariant
                i <= self.0.items@.len(),
                list@ == values(self@).take(i as int),
            decreases self.0.items@.len() - i,
        {
            list.push(self.0.items[i].value);
            assert(list@ =~= values(self@).take(i + 1));
            i += 1;
        }
        assert(list@ =~= values(self@));
        list
    }
}

/// What resolving a procedure saves of the scope in which the procedure
/// stands, and what the procedure captures.
struct Frame {
    stack_top: StackOffset,
    locals: Option<Table<StackOffset>>,
    captures: CaptureTable,
}

/// The state of the resolver.
struct StackState {
    stack_top: StackOffset,
    save_stack: Vec<StackOffset>,
    globals: Table<StackOffset>,
    locals: Option<Table<StackOffset>>,
    call_stack: Vec<Frame>,
}

/// The state of the resolver as mathematics.
struct StateModel {
    context: Context,
    progress: Progress,
    /// The heights that wait to be restored after a branch.
    saves: Seq<StackOffset>,
    /// The heights that wait to be restored after a procedure.
    tops: Seq<StackOffset>,
}

impl StackState {
    spec fn model(&self) -> StateModel {
        StateModel {
            context: Context {
                globals: self.globals@,
                locals: bindings_of(self.locals),
                enclosing: Seq::new(
                    self.call_stack@.len(),
                    |i: int| bindings_of(self.call_stack@[i].locals),
                ),
            },
            progress: Progress {
                height: self.stack_top.0 as nat,
                captures: Seq::new(self.call_stack@.len(), |i: int| self.call_stack@[i].captures@),
            },
            saves: self.save_stack@,
            tops: Seq::new(self.call_stack@.len(), |i: int| self.call_stack@[i].stack_top),
        }
    }

    fn new() -> (state: Self)
        ensures
            state.model() == (StateModel {
                context: Context::outermost(),
                progress: Progress::start(),
                saves: Seq::empty(),
                tops: Seq::empty(),
            }),
    {
        let state = Self {
            stack_top: StackOffset(0),
            save_stack: Vec::new(),
            globals: Table::new(),
            locals: None,
            call_stack: Vec::new(),
        };
        assert(state.model().context.enclosing =~= Seq::empty());
        assert(state.model().progress.captures =~= Seq::empty());
        assert(state.model().tops =~= Seq::empty());
        state
    }

    fn push(&mut self)
        requires
            old(self).stack_top.0 < usize::MAX,
        ensures
            final(self).model() == (StateModel {
                progress: old(self).model().progress.pushed(),
                ..old(self).model()
            }),
    {
        self.stack_top = self.stack_top + StackOffset(1);
    }

    fn pop(&mut self)
        requires
            old(self).stack_top.0 > 0,
        ensures
            final(self).model() == (StateModel {
                progress: old(self).model().progress.popped(),
                ..old(self).model()
            }),
    {
        self.stack_top = self.stack_top - StackOffset(1);
    }

    fn save_stack(&mut self)
        ensures
            final(self).model() == (StateModel {
                saves: old(self).model().saves.push(old(self).stack_top),
                ..old(self).model()
            }),
    {
        self.save_stack.push(self.stack_top);
    }

    fn restore_stack(&mut self)
        requires
            old(self).model().saves.len() > 0,
        ensures
            final(self).model() == (StateModel {
                progress: old(self).model().progress.at(old(self).model().saves.last().0 as nat),
                saves: old(self).model().saves.drop_last(),
                ..old(self).model()
            }),
    {
        match self.save_stack.pop() {
            Some(stack_top) => {
                self.stack_top = stack_top;
            },
            None => {},
        }
    }

    /// Binds `name` to the slot on top of the stack.
    fn begin_scope(&mut self, name: &str)
        requires
            old(self).stack_top.0 > 0,
        ensures
            final(self).model() == (StateModel {
                context: old(self).model().context.bind(
                    name@,
                    StackOffset((old(self).stack_top.0 - 1) as usize),
                ),
                ..old(self).model()
            }),
    {
        let stack_offset = self.stack_top - StackOffset(1);
        match &mut self.locals {
            Some(locals) => locals.push(String::from_str(name), stack_offset),
            None => self.globals.push(String::from_str(name), stack_offset),
        }
    }

    /// Removes the binding that `begin_scope` made last.
    fn end_scope(&mut self)
        requires
            match old(self).model().context.locals {
                Some(locals) => locals.len() > 0,
                None => old(self).model().context.globals.len() > 0,
            },
        ensures
            final(self).model() == (StateModel {
                context: match old(self).model().context.locals {
                    Some(locals) => Context {
                        locals: Some(locals.drop_last()),
                        ..old(self).model().context
                    },
                    None => Context {
                        globals: old(self).model().context.globals.drop_last(),
                        ..old(self).model().context
                    },
                },
                ..old(self).model()
            }),
    {
        match &mut self.locals {
            Some(locals) => locals.pop(),
            None => self.globals.pop(),
        }
    }

    /// Enters the body of a procedure: a new frame, in which slot 0 is the
    /// procedure, by the name `proc_name`, and slot 1 its argument, by the
    /// name `param_name`.
    fn begin_proc(&mut self, proc_name: &str, param_name: &str)
        ensures
            final(self).model() == (StateModel {
                context: old(self).model().context.enter(proc_name@, param_name@),
                progress: Progress {
                    height: 2,
                    captures: old(self).model().progress.captures.push(Seq::empty()),
                },
                saves: old(self).model().saves,
                tops: old(self).model().tops.push(old(self).stack_top),
            }),
    {
        let stack_top = self.stack_top;
        self.stack_top = StackOffset(0);
        let mut locals = Some(Table::new());
        std::mem::swap(&mut self.locals, &mut locals);
        let frame = Frame { stack_top, locals, captures: CaptureTable::new() };
        self.call_stack.push(frame);
        proof {
            let before = old(self).model();
            let now = self.model();
            assert(now.context.enclosing =~= before.context.enclosing.push(before.context.locals));
            assert(now.progress.captures =~= before.progress.captures.push(Seq::empty()));
            assert(now.tops =~= before.tops.push(old(self).stack_top));
        }

        // simulate pushing proc object and argument
        self.push();
        self.begin_scope(proc_name);
        self.push();
        self.begin_scope(param_name);
        proof {
            let bound = Seq::<(Seq<char>, StackOffset)>::empty().push(
                (proc_name@, StackOffset(0)),
            ).push((param_name@, StackOffset(1)));
            assert(bound =~= seq![(proc_name@, StackOffset(0)), (param_name@, StackOffset(1))]);
        }
    }

    /// Leaves the body of a procedure, and gives what the procedure captures.
    fn end_proc(&mut self) -> (captures: CaptureTable)
        requires
            old(self).model().tops.len() > 0,
        ensures
            captures@ == old(self).model().progress.captures.last(),
            final(self).model() == (StateModel {
                context: Context {
                    globals: old(self).model().context.globals,
                    locals: old(self).model().context.enclosing.last(),
                    enclosing: old(self).model().context.enclosing.drop_last(),
                },
                progress: Progress {
                    height: old(self).model().tops.last().0 as nat,
                    captures: old(self).model().progress.captures.drop_last(),
                },
                saves: old(self).model().saves,
                tops: old(self).model().tops.drop_last(),
            }),
    {
        let frame = self.call_stack.pop().unwrap();
        self.stack_top = frame.stack_top;
        self.locals = frame.locals;
        proof {
            let before = old(self).model();
            let now = self.model();
            assert(now.context.enclosing =~= before.context.enclosing.drop_last());
            assert(now.progress.captures =~= before.progress.captures.drop_last());
            assert(now.tops =~= before.tops.drop_last());
        }
        frame.captures
    }

    fn lookup_local(&self, name: &str) -> (found: Option<&StackOffset>)
        ensures
            match local(self.model().context.locals, name@) {
                Some(offset) => found == Some(&offset),
                None => found is None,
            },
    {
        lookup(&self.locals, name)
    }

    /// Makes `name` a capture of the current procedure, if an enclosing
    /// scope binds it.
    fn lookup_capture(&mut self, name: &str) -> (found: Option<CaptureOffset>)
        ensures
            final(self).model() == (StateModel {
                progress: final(self).model().progress,
                ..old(self).model()
            }),
            final(self).model().progress.height == old(self).model().progress.height,
            old(self).model().tops.len() > 0 ==> (found, final(self).model().progress.captures)
                == capture(
                old(self).model().context.enclosing,
                old(self).model().progress.captures,
                name@,
                (old(self).model().tops.len() - 1) as nat,
            ),
            old(self).model().tops.len() == 0 ==> found is None && final(self).model()
                == old(self).model(),
    {
        let call_depth = self.call_stack.len();
        if call_depth > 0 {
            self.capture(name, call_depth - 1)
        } else {
            None
        }
    }

    /// Makes `name` a capture of the enclosing procedure `call_depth`, if a
    /// scope around that procedure binds it.
    fn capture(&mut self, name: &str, call_depth: usize) -> (found: Option<CaptureOffset>)
        requires
            call_depth < old(self).model().tops.len(),
        ensures
            final(self).model() == (StateModel {
                progress: final(self).model().progress,
                ..old(self).model()
            }),
            final(self).model().progress.height == old(self).model().progress.height,
            (found, final(self).model().progress.captures) == capture(
                old(self).model().context.enclosing,
                old(self).model().progress.captures,
                name@,
                call_depth as nat,
            ),
        decreases call_depth,
    {
        let ghost before = self.model();
        let local = match lookup(&self.call_stack[call_depth].locals, name) {
            Some(stack_offset) => Some(*stack_offset),
            None => None,
        };
        if let Some(stack_offset) = local {
            let capture_offset = self.call_stack[call_depth].captures.add_local_capture(
                String::from_str(name),
                stack_offset,
            );
            proof {
                let now = self.model();
                assert(now.context.enclosing =~= before.context.enclosing);
                assert(now.tops =~= before.tops);
                assert(now.progress.captures =~= with_capture(
                    before.progress.captures,
                    call_depth as int,
                    name@,
                    nameless::Capture::Local(stack_offset),
                ));
            }
            Some(capture_offset)
        } else if let Some(capture_offset) = self.call_stack[call_depth].captures.lookup(name) {
            Some(capture_offset)
        } else if call_depth > 0 {
            match self.capture(name, call_depth - 1) {
                Some(outer_capture_offset) => {
                    let ghost outer = self.model();
                    let capture_offset = self.call_stack[call_depth].captures.add_capture_capture(
                        String::from_str(name),
                        outer_capture_offset,
                    );
                    proof {
                        let now = self.model();
                        assert(now.context.enclosing =~= outer.context.enclosing);
                        assert(now.tops =~= outer.tops);
                        assert(now.progress.captures =~= with_capture(
                            outer.progress.captures,
                            call_depth as int,
                            name@,
                            nameless::Capture::Capture(outer_capture_offset),
                        ));
                    }
                    Some(capture_offset)
                },
                None => None,
            }
        } else {
            None
        }
    }
}

/// Taking off what was put on last gives back what was there.
proof fn lemma_push_drop_last<T>(s: Seq<T>, x: T)
    ensures
        s.push(x).drop_last() == s,
        s.push(x).last() == x,
{
    assert(s.push(x).drop_last() =~= s);
}

/// Leaving a scope undoes entering it.
proof fn lemma_bind_undone(context: Context, name: Seq<char>, offset: StackOffset)
    ensures
        match context.bind(name, offset).locals {
            Some(locals) => locals.len() > 0 && context == (Context {
                locals: Some(locals.drop_last()),
                ..context.bind(name, offset)
            }),
            None => context.bind(name, offset).globals.len() > 0 && context == (Context {
                globals: context.bind(name, offset).globals.drop_last(),
                ..context.bind(name, offset)
            }),
        },
{
    match context.locals {
        Some(locals) => lemma_push_drop_last(locals, (name, offset)),
        None => lemma_push_drop_last(context.globals, (name, offset)),
    }
}

/// The error for a name that is bound nowhere.
fn undefined<T>(name: &str) -> (result: Result<T, String>)
    ensures
        result matches Err(message) && message@ == undefined_name(name@),
{
    let mut message = String::from_str("undefined name \"");
    message.append(name);
    message.append("\"");
    Err(message)
}

/// Rewrites a program into its nameless form.
///
/// Fails on the first name, in the order of evaluation, that is bound
/// nowhere.
pub fn resolve_names(program: &ast::Program) -> (result: Result<nameless::Program, String>)
    requires
        program@.weight() <= usize::MAX,
    ensures
        match resolve(program@, Context::outermost(), Progress::start()) {
            Resolution::Resolved { expr, .. } => result matches Ok(resolved) && resolved@ == expr,
            Resolution::Undefined { name } => result matches Err(message) && message@
                == undefined_name(name),
        },
{
    let mut state = StackState::new();
    let expr = resolve_names_expr(&program.expr, &mut state)?;
    Ok(nameless::Program { expr })
}

#[verifier::rlimit(60)]
fn resolve_names_expr(expr: &ast::Expr, state: &mut StackState) -> (result: Result<
    Box<nameless::Expr>,
    String,
>)
    requires
        old(state).stack_top.0 + expr@.weight() <= usize::MAX,
    ensures
        match resolve(expr@, old(state).model().context, old(state).model().progress) {
            Resolution::Resolved { expr: resolved, progress } => {
                &&& result matches Ok(boxed) && boxed@ == resolved
                &&& final(state).model() == (StateModel { progress, ..old(state).model() })
                &&& old(state).stack_top.0 < progress.height <= old(state).stack_top.0
                    + expr@.weight()
            },
            Resolution::Undefined { name } => result matches Err(message) && message@
                == undefined_name(name),
        },
    decreases expr, 0nat,
{
    match expr {
        ast::Expr::Assert { line, test, body } => {
            let test = resolve_names_expr(test, state)?;
            state.pop();
            let body = resolve_names_expr(body, state)?;
            Ok(Box::new(nameless::Expr::Assert { line: *line, test, body }))
        },
        ast::Expr::Call { proc, arg } => {
            let proc = resolve_names_expr(proc, state)?;
            let arg = resolve_names_expr(arg, state)?;
            state.pop();
            state.pop();
            state.push();
            Ok(Box::new(nameless::Expr::Call { proc, arg }))
        },
        ast::Expr::LiteralInt(x) => {
            state.push();
            Ok(Box::new(nameless::Expr::LiteralInt(*x)))
        },
        ast::Expr::Subtract { left, right } => {
            let left = resolve_names_expr(left, state)?;
            let right = resolve_names_expr(right, state)?;
            state.pop();
            state.pop();
            state.push();
            Ok(Box::new(nameless::Expr::Subtract { left, right }))
        },
        ast::Expr::If { test, consequent, alternate } => {
            let test = resolve_names_expr(test, state)?;
            state.pop();
            proof {
                lemma_push_drop_last(state.model().saves, state.stack_top);
            }
            state.save_stack();
            let alternate = resolve_names_expr(alternate, state)?;
            state.restore_stack();
            let consequent = resolve_names_expr(consequent, state)?;
            Ok(Box::new(nameless::Expr::If { test, consequent, alternate }))
        },
        ast::Expr::IsZero(e) => {
            let e = resolve_names_expr(e, state)?;
            state.pop();
            state.push();
            Ok(Box::new(nameless::Expr::IsZero(e)))
        },
        ast::Expr::Negate(e) => {
            let e = resolve_names_expr(e, state)?;
            state.pop();
            state.push();
            Ok(Box::new(nameless::Expr::Negate(e)))
        },
        ast::Expr::Let { name, expr, body } => {
            let expr = resolve_names_expr(expr, state)?;
            proof {
                lemma_bind_undone(
                    state.model().context,
                    name@,
                    StackOffset((state.stack_top.0 - 1) as usize),
                );
            }
            state.begin_scope(name.as_str());
            let body = resolve_names_expr(body, state)?;
            state.end_scope();
            Ok(Box::new(nameless::Expr::Let { expr, body }))
        },
        ast::Expr::LetRec { name, param, proc_body, let_body, .. } => {
            let expr = resolve_names_proc(name.as_str(), param.name.as_str(), proc_body, state)?;
            proof {
                lemma_bind_undone(
                    state.model().context,
                    name@,
                    StackOffset((state.stack_top.0 - 1) as usize),
                );
            }
            state.begin_scope(name.as_str());
            let body = resolve_names_expr(let_body, state)?;
            state.end_scope();
            Ok(Box::new(nameless::Expr::Let { expr, body }))
        },
        ast::Expr::LiteralBool(value) => {
            state.push();
            Ok(Box::new(nameless::Expr::LiteralBool(*value)))
        },
        ast::Expr::Proc { param, body } => {
            proof {
                reveal_strlit("");
                assert(""@ =~= Seq::<char>::empty());
            }
            resolve_names_proc("", param.name.as_str(), body, state)
        },
        ast::Expr::Name(name) => {
            state.push();
            let local = match state.lookup_local(name.as_str()) {
                Some(stack_offset) => Some(*stack_offset),
                None => None,
            };
            if let Some(stack_offset) = local {
                Ok(Box::new(nameless::Expr::Local(stack_offset)))
            } else if let Some(capture_offset) = state.lookup_capture(name.as_str()) {
                Ok(Box::new(nameless::Expr::Capture(capture_offset)))
            } else if let Some(stack_offset) = state.globals.lookup(name.as_str()) {
                Ok(Box::new(nameless::Expr::Global(*stack_offset)))
            } else {
                undefined(name.as_str())
            }
        },
    }
}

fn resolve_names_proc(
    proc_name: &str,
    param_name: &str,
    body: &ast::Expr,
    state: &mut StackState,
) -> (result: Result<Box<nameless::Expr>, String>)
    requires
        old(state).stack_top.0 + 1 <= usize::MAX,
        2 + body@.weight() <= usize::MAX,
    ensures
        match resolve_proc(
            proc_name@,
            param_name@,
            body@,
            old(state).model().context,
            old(state).model().progress,
        ) {
            Resolution::Resolved { expr: resolved, progress } => {
                &&& result matches Ok(boxed) && boxed@ == resolved
                &&& final(state).model() == (StateModel { progress, ..old(state).model() })
                &&& progress.height == old(state).stack_top.0 + 1
            },
            Resolution::Undefined { name } => result matches Err(message) && message@
                == undefined_name(name),
        },
    decreases body, 1nat,
{
    proof {
        let before = state.model();
        lemma_push_drop_last(before.context.enclosing, before.context.locals);
        lemma_push_drop_last(before.tops, state.stack_top);
    }
    state.begin_proc(proc_name, param_name);
    let body = resolve_names_expr(body, state)?;
    let capture_table = state.end_proc();
    let captures: Vec<nameless::Capture> = capture_table.captures();
    state.push();
    Ok(Box::new(nameless::Expr::Proc { body, captures }))
}

} // verus!
