//! Type checks a program.
//!
//! `type_of` is the definition of the type of an expression; `type_of_program`
//! computes it.

use vstd::prelude::*;
use vstd::string::StringExecFns;
use crate::ast::{Expr, ExprView, Program};
use crate::table::{find, find_value, lemma_find_innermost, Bindings, Table};
use crate::types::{type_text, Type, TypeView};

verus! {

/// Why an expression has no type.
pub enum TypeError {
    /// The guard of an `assert` is no Boolean.
    AssertGuard { found: TypeView },
    /// What is called is no procedure.
    CallNotProc { found: TypeView },
    /// The argument of a call has another type than the parameter.
    CallArgument { expected: TypeView, found: TypeView },
    /// The first operand of a subtraction is no integer.
    SubtractFirst { found: TypeView },
    /// The second operand of a subtraction is no integer.
    SubtractSecond { found: TypeView },
    /// The operand of a negation is no integer.
    NegateOperand { found: TypeView },
    /// The test of a conditional is no Boolean.
    IfTest { found: TypeView },
    /// The branches of a conditional have different types.
    IfBranches { consequent: TypeView, alternate: TypeView },
    /// The operand of `zero?` is no integer.
    ZeroOperand { found: TypeView },
    /// The body of a recursive procedure has another type than declared.
    LetRecResult { name: Seq<char>, expected: TypeView, found: TypeView },
    /// A name is bound nowhere.
    UndefinedName { name: Seq<char> },
}

/// The message of a type error.
pub open spec fn type_error_message(error: TypeError) -> Seq<char> {
    match error {
        TypeError::AssertGuard { found } => "assert guard must be type `bool` but got `"@
            + type_text(found) + "`"@,
        TypeError::CallNotProc { found } => "call expects proc but got `"@ + type_text(found)
            + "`"@,
        TypeError::CallArgument { expected, found } => "call expect `"@ + type_text(expected)
            + "` argument but got `"@ + type_text(found) + "`"@,
        TypeError::SubtractFirst { found } => "-() first argument expects `int` but got `"@
            + type_text(found) + "`"@,
        TypeError::SubtractSecond { found } => "-() second argument expects `int` but got `"@
            + type_text(found) + "`"@,
        TypeError::NegateOperand { found } => "-() argument expects `int` but got `"@ + type_text(
            found,
        ) + "`"@,
        TypeError::IfTest { found } => "`if` test expects `bool` but got `"@ + type_text(found)
            + "`"@,
        TypeError::IfBranches { consequent, alternate } =>
            "`if` branches expect matching types but got `"@ + type_text(consequent)
            + "` and `"@ + type_text(alternate) + "`"@,
        TypeError::ZeroOperand { found } => "`zero?` expects `int` but got `"@ + type_text(found)
            + "`"@,
        TypeError::LetRecResult { name, expected, found } => "`"@ + name
            + "` expect result of type `"@ + type_text(expected) + "` but got `"@ + type_text(
            found,
        ) + "`."@,
        TypeError::UndefinedName { name } => "undefined name `"@ + name + "`"@,
    }
}

/// The type of a procedure.
pub open spec fn proc_type(t_param: TypeView, t_result: TypeView) -> TypeView {
    TypeView::Proc(Box::new(t_param), Box::new(t_result))
}

/// The type of `expr` where the names have the types that `env` gives them;
/// or the first error, in the order in which the expression is checked.
pub open spec fn type_of(expr: ExprView, env: Bindings<TypeView>) -> Result<TypeView, TypeError>
    decreases expr,
{
    match expr {
        ExprView::LiteralInt(_) => Ok(TypeView::Int),
        ExprView::LiteralBool(_) => Ok(TypeView::Bool),
        ExprView::Name(name) => match find_value(env, name) {
            Some(t) => Ok(t),
            None => Err(TypeError::UndefinedName { name }),
        },
        ExprView::Assert { test, body, .. } => match type_of(*test, env) {
            Err(error) => Err(error),
            Ok(t_test) => if t_test is Bool {
                type_of(*body, env)
            } else {
                Err(TypeError::AssertGuard { found: t_test })
            },
        },
        ExprView::Call { proc, arg } => match type_of(*proc, env) {
            Err(error) => Err(error),
            Ok(t_proc) => match t_proc {
                TypeView::Proc(t_param, t_body) => match type_of(*arg, env) {
                    Err(error) => Err(error),
                    Ok(t_arg) => if *t_param == t_arg {
                        Ok(*t_body)
                    } else {
                        Err(TypeError::CallArgument { expected: *t_param, found: t_arg })
                    },
                },
                _ => Err(TypeError::CallNotProc { found: t_proc }),
            },
        },
        ExprView::Subtract { left, right } => match type_of(*left, env) {
            Err(error) => Err(error),
            Ok(t_left) => if t_left is Int {
                match type_of(*right, env) {
                    Err(error) => Err(error),
                    Ok(t_right) => if t_right is Int {
                        Ok(TypeView::Int)
                    } else {
                        Err(TypeError::SubtractSecond { found: t_right })
                    },
                }
            } else {
                Err(TypeError::SubtractFirst { found: t_left })
            },
        },
        ExprView::Negate(inner) => match type_of(*inner, env) {
            Err(error) => Err(error),
            Ok(t) => if t is Int {
                Ok(TypeView::Int)
            } else {
                Err(TypeError::NegateOperand { found: t })
            },
        },
        ExprView::If { test, consequent, alternate } => match type_of(*test, env) {
            Err(error) => Err(error),
            Ok(t_test) => if t_test is Bool {
                match type_of(*consequent, env) {
                    Err(error) => Err(error),
                    Ok(t_consequent) => match type_of(*alternate, env) {
                        Err(error) => Err(error),
                        Ok(t_alternate) => if t_consequent == t_alternate {
                            Ok(t_consequent)
                        } else {
                            Err(
                                TypeError::IfBranches {
                                    consequent: t_consequent,
                                    alternate: t_alternate,
                                },
                            )
                        },
                    },
                }
            } else {
                Err(TypeError::IfTest { found: t_test })
            },
        },
        ExprView::IsZero(inner) => match type_of(*inner, env) {
            Err(error) => Err(error),
            Ok(t) => if t is Int {
                Ok(TypeView::Bool)
            } else {
                Err(TypeError::ZeroOperand { found: t })
            },
        },
        ExprView::Let { name, expr, body } => match type_of(*expr, env) {
            Err(error) => Err(error),
            Ok(t_expr) => type_of(*body, env.push((name, t_expr))),
        },
        ExprView::Proc { param, body } => match type_of(*body, env.push((param.name, param.t))) {
            Err(error) => Err(error),
            Ok(t_body) => Ok(proc_type(param.t, t_body)),
        },
        ExprView::LetRec { t_result, name, param, proc_body, let_body } => {
            let t_proc = proc_type(param.t, t_result);
            match type_of(*proc_body, env.push((name, t_proc)).push((param.name, param.t))) {
                Err(error) => Err(error),
                Ok(t_body) => if t_body == t_result {
                    type_of(*let_body, env.push((name, t_proc)))
                } else {
                    Err(
                        TypeError::LetRecResult {
                            name,
                            expected: t_result,
                            found: t_body,
                        },
                    )
                },
            }
        },
    }
}

/// The types that a table of types binds, as mathematical trees.
pub open spec fn types_of(env: Bindings<Type>) -> Bindings<TypeView> {
    Seq::new(env.len(), |i: int| (env[i].0, env[i].1@))
}

/// A name is bound in a table of types where it is bound in the table of
/// their views.
proof fn lemma_find_types(env: Bindings<Type>, name: Seq<char>)
    ensures
        find(types_of(env), name) == find(env, name),
    decreases env.len(),
{
    if env.len() > 0 {
        assert(types_of(env).drop_last() =~= types_of(env.drop_last()));
        lemma_find_types(env.drop_last(), name);
    }
}

/// The text `prefix`, the type `t`, and `suffix`.
fn around(prefix: &str, t: &Type, suffix: &str) -> (text: String)
    ensures
        text@ == prefix@ + type_text(t@) + suffix@,
{
    let mut text = String::from_str(prefix);
    let shown = t.to_string();
    text.append(shown.as_str());
    text.append(suffix);
    text
}

/// The text `prefix`, the type `first`, `middle`, the type `second`, and
/// `suffix`.
fn around_two(prefix: &str, first: &Type, middle: &str, second: &Type, suffix: &str) -> (text:
    String)
    ensures
        text@ == prefix@ + type_text(first@) + middle@ + type_text(second@) + suffix@,
{
    let mut text = around(prefix, first, middle);
    let shown = second.to_string();
    text.append(shown.as_str());
    text.append(suffix);
    text
}

/// The type of a program, or the message of the first type error.
pub fn type_of_program(program: &Program) -> (result: Result<Type, String>)
    ensures
        match type_of(program@, Seq::empty()) {
            Ok(t) => result matches Ok(found) && found@ == t,
            Err(error) => result matches Err(message) && message@ == type_error_message(error),
        },
{
    let mut env = Table::new();
    assert(types_of(env@) =~= Seq::empty());
    type_of_expr(&program.expr, &mut env)
}

#[verifier::rlimit(50)]
fn type_of_expr(expr: &Expr, env: &mut Table<Type>) -> (result: Result<Type, String>)
    ensures
        match type_of(expr@, types_of(old(env)@)) {
            Ok(t) => result matches Ok(found) && found@ == t && final(env)@ == old(env)@,
            Err(error) => result matches Err(message) && message@ == type_error_message(error),
        },
    decreases expr,
{
    let ghost names = types_of(env@);
    match expr {
        Expr::Assert { test, body, .. } => {
            let t_test = type_of_expr(test, env)?;
            if !t_test.is_bool() {
                let msg = around("assert guard must be type `bool` but got `", &t_test, "`");
                return Err(msg);
            }
            type_of_expr(body, env)
        },
        Expr::Call { proc, arg } => {
            let t_proc = type_of_expr(proc, env)?;
            let Some((t_param, t_body)) = t_proc.as_proc() else {
                let msg = around("call expects proc but got `", &t_proc, "`");
                return Err(msg);
            };
            let t_arg = type_of_expr(arg, env)?;
            if *t_param != t_arg {
                let msg = around_two("call expect `", t_param, "` argument but got `", &t_arg, "`");
                return Err(msg);
            }
            Ok(t_body.clone())
        },
        Expr::LiteralInt(_) => Ok(Type::new_int()),
        Expr::Subtract { left, right } => {
            let t_left = type_of_expr(left, env)?;
            if !t_left.is_int() {
                let msg = around("-() first argument expects `int` but got `", &t_left, "`");
                return Err(msg);
            }
            let t_right = type_of_expr(right, env)?;
            if !t_right.is_int() {
                let msg = around("-() second argument expects `int` but got `", &t_right, "`");
                return Err(msg);
            }
            Ok(Type::new_int())
        },
        Expr::Negate(inner) => {
            let t_inner = type_of_expr(inner, env)?;
            if !t_inner.is_int() {
                let msg = around("-() argument expects `int` but got `", &t_inner, "`");
                return Err(msg);
            }
            Ok(Type::new_int())
        },
        Expr::If { test, consequent, alternate } => {
            let t_test = type_of_expr(test, env)?;
            if !t_test.is_bool() {
                let msg = around("`if` test expects `bool` but got `", &t_test, "`");
                return Err(msg);
            }
            let t_consequent = type_of_expr(consequent, env)?;
            let t_alternate = type_of_expr(alternate, env)?;
            if t_consequent != t_alternate {
                let msg = around_two(
                    "`if` branches expect matching types but got `",
                    &t_consequent,
                    "` and `",
                    &t_alternate,
                    "`",
                );
                return Err(msg);
            }
            Ok(t_consequent)
        },
        Expr::IsZero(expr) => {
            let t_expr = type_of_expr(expr, env)?;
            if t_expr.is_int() {
                Ok(Type::new_bool())
            } else {
                let msg = around("`zero?` expects `int` but got `", &t_expr, "`");
                Err(msg)
            }
        },
        Expr::Let { name, expr, body } => {
            let t_expr = type_of_expr(expr, env)?;
            proof {
                assert(types_of(env@.push((name@, t_expr))) =~= names.push((name@, t_expr@)));
                assert(env@.push((name@, t_expr)).drop_last() =~= env@);
            }
            env.push(name.clone(), t_expr);
            let t_body = type_of_expr(body, env)?;
            env.pop();
            Ok(t_body)
        },
        Expr::LiteralBool(_) => Ok(Type::new_bool()),
        Expr::Proc { param, body } => {
            proof {
                assert(types_of(env@.push((param.name@, param.t))) =~= names.push(
                    (param.name@, param.t@),
                ));
                assert(env@.push((param.name@, param.t)).drop_last() =~= env@);
            }
            env.push(param.name.clone(), param.t.clone());
            let t_body = type_of_expr(body, env)?;
            env.pop();
            let t_proc = Type::new_proc(param.t.clone(), t_body);
            Ok(t_proc)
        },
        Expr::LetRec { t_result, name, param, proc_body, let_body } => {
            let t_proc = Type::new_proc(param.t.clone(), t_result.clone());
            proof {
                let one = env@.push((name@, t_proc));
                let two = one.push((param.name@, param.t));
                assert(types_of(one) =~= names.push((name@, t_proc@)));
                assert(types_of(two) =~= names.push((name@, t_proc@)).push(
                    (param.name@, param.t@),
                ));
                assert(two.drop_last() =~= one);
                assert(one.drop_last() =~= env@);
            }
            env.push(name.clone(), t_proc);
            env.push(param.name.clone(), param.t.clone());
            let t_body = type_of_expr(proc_body, env)?;
            if t_body != *t_result {
                let mut msg = String::from_str("`");
                msg.append(name.as_str());
                let rest = around_two(
                    "` expect result of type `",
                    t_result,
                    "` but got `",
                    &t_body,
                    "`.",
                );
                msg.append(rest.as_str());
                assert(msg@ =~= type_error_message(
                    TypeError::LetRecResult { name: name@, expected: t_result@, found: t_body@ },
                ));
                return Err(msg);
            }
            env.pop();
            let t_let_body = type_of_expr(let_body, env)?;
            env.pop();
            Ok(t_let_body)
        },
        Expr::Name(name) => {
            proof {
                lemma_find_types(env@, name@);
                lemma_find_innermost(env@, name@);
            }
            if let Some(t_name) = env.lookup(name.as_str()) {
                Ok(t_name.clone())
            } else {
                let mut msg = String::from_str("undefined name `");
                msg.append(name.as_str());
                msg.append("`");
                Err(msg)
            }
        },
    }
}

} // verus!
