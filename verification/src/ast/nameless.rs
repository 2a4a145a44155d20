//! A nameless version of the AST, that is, an AST without identifiers.
//!
//! Every reference to a name has become a slot of the current frame, a slot
//! of the current procedure's captures, or a slot of the outermost frame; and
//! every procedure carries the list of what it captures.

use vstd::prelude::*;
pub use crate::offset::{Capture, CaptureOffset, StackOffset};

verus! {

/// A nameless program.
#[derive(Debug, PartialEq)]
pub struct Program {
    pub expr: Box<Expr>,
}

/// A nameless expression.
#[derive(Debug, PartialEq)]
pub enum Expr {
    /// An expression which guards its body expression by a test expression.
    Assert { line: usize, test: Box<Expr>, body: Box<Expr> },
    /// A procedure call expression.
    Call { proc: Box<Expr>, arg: Box<Expr> },
    /// A slot of the current procedure's captures.
    Capture(CaptureOffset),
    /// A slot of the outermost frame.
    Global(StackOffset),
    /// A conditional expression.
    If { test: Box<Expr>, consequent: Box<Expr>, alternate: Box<Expr> },
    /// An expression that tests if a sub-expression is zero.
    IsZero(Box<Expr>),
    /// An expression whose value is bound to the next stack slot while the
    /// body is evaluated.
    Let { expr: Box<Expr>, body: Box<Expr> },
    /// A literal Boolean expression.
    LiteralBool(bool),
    /// A literal integer expression.
    LiteralInt(i64),
    /// A slot of the current frame.
    Local(StackOffset),
    /// An expression that negates its inner expression.
    Negate(Box<Expr>),
    /// A procedure with the list of what it captures when it is made.
    Proc { body: Box<Expr>, captures: Vec<Capture> },
    /// An expression that subtracts right from left.
    Subtract { left: Box<Expr>, right: Box<Expr> },
}

/// A nameless expression as a mathematical tree.
pub enum ExprView {
    Assert { line: usize, test: Box<ExprView>, body: Box<ExprView> },
    Call { proc: Box<ExprView>, arg: Box<ExprView> },
    Capture(CaptureOffset),
    Global(StackOffset),
    If { test: Box<ExprView>, consequent: Box<ExprView>, alternate: Box<ExprView> },
    IsZero(Box<ExprView>),
    Let { expr: Box<ExprView>, body: Box<ExprView> },
    LiteralBool(bool),
    LiteralInt(i64),
    Local(StackOffset),
    Negate(Box<ExprView>),
    Proc { body: Box<ExprView>, captures: Seq<Capture> },
    Subtract { left: Box<ExprView>, right: Box<ExprView> },
}

impl Expr {
    /// The expression as a mathematical tree.
    pub open spec fn tree(&self) -> ExprView
        decreases self,
    {
        match self {
            Expr::Assert { line, test, body } => ExprView::Assert {
                line: *line,
                test: Box::new(test.tree()),
                body: Box::new(body.tree()),
            },
            Expr::Call { proc, arg } => ExprView::Call {
                proc: Box::new(proc.tree()),
                arg: Box::new(arg.tree()),
            },
            Expr::Capture(offset) => ExprView::Capture(*offset),
            Expr::Global(offset) => ExprView::Global(*offset),
            Expr::If { test, consequent, alternate } => ExprView::If {
                test: Box::new(test.tree()),
                consequent: Box::new(consequent.tree()),
                alternate: Box::new(alternate.tree()),
            },
            Expr::IsZero(inner) => ExprView::IsZero(Box::new(inner.tree())),
            Expr::Let { expr, body } => ExprView::Let {
                expr: Box::new(expr.tree()),
                body: Box::new(body.tree()),
            },
            Expr::LiteralBool(value) => ExprView::LiteralBool(*value),
            Expr::LiteralInt(value) => ExprView::LiteralInt(*value),
            Expr::Local(offset) => ExprView::Local(*offset),
            Expr::Negate(inner) => ExprView::Negate(Box::new(inner.tree())),
            Expr::Proc { body, captures } => ExprView::Proc {
                body: Box::new(body.tree()),
                captures: captures@,
            },
            Expr::Subtract { left, right } => ExprView::Subtract {
                left: Box::new(left.tree()),
                right: Box::new(right.tree()),
            },
        }
    }
}

impl View for Expr {
    type V = ExprView;

    open spec fn view(&self) -> ExprView {
        self.tree()
    }
}

impl View for Program {
    type V = ExprView;

    open spec fn view(&self) -> ExprView {
        self.expr.tree()
    }
}

} // verus!
