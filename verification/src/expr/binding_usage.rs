use crate::env::{binding, Env};
use crate::error::{eval_result, EvalError, ParseError};
use crate::grammar;
use crate::grammar::parsed;
use crate::utils;
use crate::val::Val;
use vstd::prelude::*;
use vstd::string::*;

verus! {

/// The use of a binding by its name.
#[derive(Debug, PartialEq, Eq)]
pub struct BindingUsage {
    pub name: String,
}

impl BindingUsage {
    /// Reads the use of a binding: an identifier. Fails with
    /// `ExpectedIdentifier` where `s` does not start with a letter.
    pub fn new(s: &str) -> (r: Result<(&str, BindingUsage), ParseError>)
        ensures
            parsed(r) == grammar::binding_usage(s@),
    {
        let (rest, name) = utils::extract_ident(s)?;
        Ok((rest, BindingUsage { name: name.to_string() }))
    }
}

impl BindingUsage {
    /// The value that the name is bound to in `env`. Fails with
    /// `UndefinedBinding`, which holds the name, where it is bound to no
    /// value.
    pub fn eval(&self, env: &Env) -> (r: Result<Val, EvalError>)
        ensures
            eval_result(r) == binding(env@, self@),
    {
        env.get_binding(self.name.as_str())
    }
}

impl View for BindingUsage {
    type V = Seq<char>;

    open spec fn view(&self) -> Seq<char> {
        self.name@
    }
}

impl Clone for BindingUsage {
    fn clone(&self) -> (copy: Self)
        ensures
            copy@ == self@,
    {
        BindingUsage { name: self.name.clone() }
    }
}

} // verus!
