use crate::binding_def::{BindingDef, BindingDefView};
use crate::env::Env;
use crate::error::{eval_result, EvalError, ParseError};
use crate::expr::{Expr, ExprView};
use crate::func_def::{FuncDef, FuncDefView};
use crate::grammar;
use crate::grammar::parsed;
use crate::semantics;
use crate::val::Val;
use vstd::prelude::*;

verus! {

/// A statement: the definition of a binding, the definition of a function,
/// or an expression.
#[derive(Debug, PartialEq)]
pub enum Statement {
    BindingDef(BindingDef),
    FuncDef(FuncDef),
    Expr(Expr),
}

/// The mathematical value of a [`Statement`].
pub ghost enum StatementView {
    BindingDef(BindingDefView),
    FuncDef(FuncDefView),
    Expr(ExprView),
}

impl Statement {
    /// The statement as a mathematical value; `self@` is the same.
    pub open spec fn model(&self) -> StatementView
        decreases self,
    {
        match self {
            Statement::BindingDef(binding_def) => StatementView::BindingDef(binding_def.model()),
            Statement::FuncDef(func_def) => StatementView::FuncDef(func_def.model()),
            Statement::Expr(expr) => StatementView::Expr(expr.model()),
        }
    }
}

impl Statement {
    /// Reads a statement: the definition of a binding, else the definition
    /// of a function, else an expression. Fails as the expression does where
    /// `s` starts with none of them.
    pub fn new(s: &str) -> (r: Result<(&str, Statement), ParseError>)
        ensures
            parsed(r) == grammar::statement(s@),
        decreases s@.len(), 6nat,
    {
        if let Ok((rest, binding_def)) = BindingDef::new(s) {
            Ok((rest, Statement::BindingDef(binding_def)))
        } else if let Ok((rest, func_def)) = FuncDef::new(s) {
            Ok((rest, Statement::FuncDef(func_def)))
        } else {
            match Expr::new(s) {
                Ok((rest, expr)) => Ok((rest, Statement::Expr(expr))),
                Err(e) => Err(e),
            }
        }
    }
}

impl Statement {
    /// Evaluates the statement in `env`: a definition binds its name in
    /// `env` and has the value `Unit`; an expression has its value and
    /// leaves `env` as it was.
    pub fn eval(&self, env: &mut Env) -> (r: Result<Val, EvalError>)
        ensures
            (eval_result(r), final(env)@) == semantics::eval_statement(self@, old(env)@),
            final(env).parent() == old(env).parent(),
        decreases self,
    {
        match self {
            Statement::BindingDef(binding_def) => {
                binding_def.eval(env)?;
                Ok(Val::Unit)
            },
            Statement::FuncDef(func_def) => {
                func_def.eval(env)?;
                Ok(Val::Unit)
            },
            Statement::Expr(expr) => expr.eval(env),
        }
    }
}

impl View for Statement {
    type V = StatementView;

    open spec fn view(&self) -> StatementView {
        self.model()
    }
}

impl Clone for Statement {
    fn clone(&self) -> (copy: Self)
        ensures
            copy@ == self@,
        decreases self,
    {
        match self {
            Statement::BindingDef(binding_def) => Statement::BindingDef(binding_def.clone()),
            Statement::FuncDef(func_def) => Statement::FuncDef(func_def.clone()),
            Statement::Expr(expr) => Statement::Expr(expr.clone()),
        }
    }
}

} // verus!
