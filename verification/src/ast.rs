//! Abstract syntax trees: the named form that a parser produces, and in
//! `nameless` the form in which every name has been replaced by an offset.

use vstd::prelude::*;
use crate::types::{Type, TypeView};

pub mod nameless;

verus! {

/// A program node in an AST.
#[derive(Debug, PartialEq)]
pub struct Program {
    /// The program's expression.
    pub expr: Box<Expr>,
}

/// An expression node in an AST.
#[derive(Debug, PartialEq)]
pub enum Expr {
    /// An expression guarded by a test expression.
    Assert { line: usize, test: Box<Expr>, body: Box<Expr> },
    /// A procedure call expression.
    Call { proc: Box<Expr>, arg: Box<Expr> },
    /// A conditional expression.
    If { test: Box<Expr>, consequent: Box<Expr>, alternate: Box<Expr> },
    /// An expression that tests if a sub-expression is zero.
    IsZero(Box<Expr>),
    /// An expression with a name bound to a value.
    Let { name: String, expr: Box<Expr>, body: Box<Expr> },
    /// A recursive procedure definition expression.
    LetRec { t_result: Type, name: String, param: Param, proc_body: Box<Expr>, let_body: Box<Expr> },
    /// A literal Boolean expression.
    LiteralBool(bool),
    /// A literal integer expression.
    LiteralInt(i64),
    /// A name lookup expression.
    Name(String),
    /// An expression that negates its inner expression.
    Negate(Box<Expr>),
    /// A procedure definition expression.
    Proc { param: Param, body: Box<Expr> },
    /// An expression that subtracts right from left.
    Subtract { left: Box<Expr>, right: Box<Expr> },
}

/// A procedure's parameter: its name and its type.
#[derive(Debug, PartialEq)]
pub struct Param {
    pub name: String,
    pub t: Type,
}

impl Param {
    pub fn new(name: String, t: Type) -> (param: Param)
        ensures
            param.name == name,
            param.t == t,
    {
        Param { name, t }
    }
}

/// A parameter as a mathematical object.
pub struct ParamView {
    pub name: Seq<char>,
    pub t: TypeView,
}

impl View for Param {
    type V = ParamView;

    open spec fn view(&self) -> ParamView {
        ParamView { name: self.name@, t: self.t@ }
    }
}

/// An expression as a mathematical tree.
pub enum ExprView {
    Assert { line: usize, test: Box<ExprView>, body: Box<ExprView> },
    Call { proc: Box<ExprView>, arg: Box<ExprView> },
    If { test: Box<ExprView>, consequent: Box<ExprView>, alternate: Box<ExprView> },
    IsZero(Box<ExprView>),
    Let { name: Seq<char>, expr: Box<ExprView>, body: Box<ExprView> },
    LetRec {
        t_result: TypeView,
        name: Seq<char>,
        param: ParamView,
        proc_body: Box<ExprView>,
        let_body: Box<ExprView>,
    },
    LiteralBool(bool),
    LiteralInt(i64),
    Name(Seq<char>),
    Negate(Box<ExprView>),
    Proc { param: ParamView, body: Box<ExprView> },
    Subtract { left: Box<ExprView>, right: Box<ExprView> },
}

impl ExprView {
    /// The weight of the expression: one for each node, and one more for each
    /// procedure. A frame never grows higher than the weight of the
    /// expression that it evaluates.
    pub open spec fn weight(self) -> nat
        decreases self,
    {
        match self {
            ExprView::Assert { test, body, .. } => 1 + test.weight() + body.weight(),
            ExprView::Call { proc, arg } => 1 + proc.weight() + arg.weight(),
            ExprView::If { test, consequent, alternate } => 1 + test.weight()
                + consequent.weight() + alternate.weight(),
            ExprView::IsZero(inner) => 1 + inner.weight(),
            ExprView::Let { expr, body, .. } => 1 + expr.weight() + body.weight(),
            ExprView::LetRec { proc_body, let_body, .. } => 2 + proc_body.weight()
                + let_body.weight(),
            ExprView::LiteralBool(_) => 1,
            ExprView::LiteralInt(_) => 1,
            ExprView::Name(_) => 1,
            ExprView::Negate(inner) => 1 + inner.weight(),
            ExprView::Proc { body, .. } => 2 + body.weight(),
            ExprView::Subtract { left, right } => 1 + left.weight() + right.weight(),
        }
    }
}

impl View for Expr {
    type V = ExprView;

    open spec fn view(&self) -> ExprView {
        self.tree()
    }
}

impl View for Program {
    type V = ExprView;

    open spec fn view(&self) -> ExprView {
        self.expr.tree()
    }
}

impl Expr {
    /// The expression as a mathematical tree.
    pub open spec fn tree(&self) -> ExprView
        decreases self,
    {
        match self {
            Expr::Assert { line, test, body } => ExprView::Assert {
                line: *line,
                test: Box::new(test.tree()),
                body: Box::new(body.tree()),
            },
            Expr::Call { proc, arg } => ExprView::Call {
                proc: Box::new(proc.tree()),
                arg: Box::new(arg.tree()),
            },
            Expr::If { test, consequent, alternate } => ExprView::If {
                test: Box::new(test.tree()),
                consequent: Box::new(consequent.tree()),
                alternate: Box::new(alternate.tree()),
            },
            Expr::IsZero(inner) => ExprView::IsZero(Box::new(inner.tree())),
            Expr::Let { name, expr, body } => ExprView::Let {
                name: name@,
                expr: Box::new(expr.tree()),
                body: Box::new(body.tree()),
            },
            Expr::LetRec { t_result, name, param, proc_body, let_body } => ExprView::LetRec {
                t_result: t_result@,
                name: name@,
                param: param@,
                proc_body: Box::new(proc_body.tree()),
                let_body: Box::new(let_body.tree()),
            },
            Expr::LiteralBool(value) => ExprView::LiteralBool(*value),
            Expr::LiteralInt(value) => ExprView::LiteralInt(*value),
            Expr::Name(name) => ExprView::Name(name@),
            Expr::Negate(inner) => ExprView::Negate(Box::new(inner.tree())),
            Expr::Proc { param, body } => ExprView::Proc {
                param: param@,
                body: Box::new(body.tree()),
            },
            Expr::Subtract { left, right } => ExprView::Subtract {
                left: Box::new(left.tree()),
                right: Box::new(right.tree()),
            },
        }
    }

    /// Whether the weight of the expression is at most `limit`.
    pub fn weight_within(&self, limit: usize) -> (within: bool)
        ensures
            within == (self@.weight() <= limit),
    {
        self.spend(limit).is_some()
    }

    /// What is left of `budget` after the weight of the expression is paid,
    /// if the budget suffices.
    fn spend(&self, budget: usize) -> (left: Option<usize>)
        ensures
            match left {
                Some(rest) => self@.weight() + rest == budget,
                None => self@.weight() > budget,
            },
        decreases self,
    {
        if budget == 0 {
            return None;
        }
        let budget = budget - 1;
        match self {
            Expr::Assert { test, body, .. } => match test.spend(budget) {
                Some(rest) => body.spend(rest),
                None => None,
            },
            Expr::Call { proc, arg } => match proc.spend(budget) {
                Some(rest) => arg.spend(rest),
                None => None,
            },
            Expr::If { test, consequent, alternate } => match test.spend(budget) {
                Some(rest) => match consequent.spend(rest) {
                    Some(rest) => alternate.spend(rest),
                    None => None,
                },
                None => None,
            },
            Expr::IsZero(inner) => inner.spend(budget),
            Expr::Let { expr, body, .. } => match expr.spend(budget) {
                Some(rest) => body.spend(rest),
                None => None,
            },
            Expr::LetRec { proc_body, let_body, .. } => if budget == 0 {
                None
            } else {
                match proc_body.spend(budget - 1) {
                    Some(rest) => let_body.spend(rest),
                    None => None,
                }
            },
            Expr::LiteralBool(_) => Some(budget),
            Expr::LiteralInt(_) => Some(budget),
            Expr::Name(_) => Some(budget),
            Expr::Negate(inner) => inner.spend(budget),
            Expr::Proc { body, .. } => if budget == 0 {
                None
            } else {
                body.spend(budget - 1)
            },
            Expr::Subtract { left, right } => match left.spend(budget) {
                Some(rest) => right.spend(rest),
                None => None,
            },
        }
    }
}

} // verus!
