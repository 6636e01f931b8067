use crate::env::{Env, NamedInfoView};
use crate::error::{EvalError, ParseError};
use crate::expr::{Expr, ExprView};
use crate::grammar;
use crate::grammar::parsed;
use crate::semantics;
use crate::utils;
use vstd::prelude::*;
use vstd::string::*;

verus! {

/// The definition of a binding: `let`, a name, `=`, and the expression whose
/// value the name gets.
#[derive(Debug, PartialEq)]
pub struct BindingDef {
    pub name: String,
    pub val: Expr,
}

/// The mathematical value of a [`BindingDef`].
pub ghost struct BindingDefView {
    pub name: Seq<char>,
    pub val: ExprView,
}

impl BindingDef {
    /// The definition as a mathematical value; `self@` is the same.
    pub open spec fn model(&self) -> BindingDefView
        decreases self,
    {
        BindingDefView { name: self.name@, val: self.val.model() }
    }
}

impl BindingDef {
    /// Reads the definition of a binding: `let`, whitespace, a name, `=` and
    /// an expression, with whitespace allowed around `=`. Fails as the first
    /// of these that is missing does.
    pub fn new(s: &str) -> (r: Result<(&str, BindingDef), ParseError>)
        ensures
            parsed(r) == grammar::binding_def(s@),
        decreases s@.len(), 5nat,
    {
        let rest = utils::tag("let", s)?;
        let (rest, _) = utils::extract_whitespace_non_empty(rest)?;

        let (rest, name) = utils::extract_ident(rest)?;
        let (rest, _) = utils::extract_whitespace(rest);

        let rest = utils::tag("=", rest)?;
        let (rest, _) = utils::extract_whitespace(rest);

        proof {
            broadcast use grammar::group_lexical_rules_shrink;

        }
        let (rest, val) = Expr::new(rest)?;

        Ok((rest, BindingDef { name: name.to_string(), val }))
    }
}

impl BindingDef {
    /// Evaluates the expression in `env` and binds the name to its value in
    /// `env` itself. Where the expression fails, fails as it does and leaves
    /// `env` as it was.
    pub fn eval(&self, env: &mut Env) -> (r: Result<(), EvalError>)
        ensures
            match semantics::eval_expr(self@.val, old(env)@) {
                Ok(value) => r is Ok && final(env)@ == old(env)@.insert(
                    self@.name,
                    NamedInfoView::Binding(value),
                ),
                Err(e) => r is Err && r->Err_0@ == e && final(env)@ == old(env)@,
            },
            final(env).parent() == old(env).parent(),
        decreases self,
    {
        let value = self.val.eval(env)?;
        env.store_binding(self.name.clone(), value);
        Ok(())
    }
}

impl View for BindingDef {
    type V = BindingDefView;

    open spec fn view(&self) -> BindingDefView {
        self.model()
    }
}

impl Clone for BindingDef {
    fn clone(&self) -> (copy: Self)
        ensures
            copy@ == self@,
        decreases self,
    {
        BindingDef { name: self.name.clone(), val: self.val.clone() }
    }
}

} // verus!
