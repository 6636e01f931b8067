use crate::env::{Env, NamedInfoView};
use crate::error::{EvalError, ParseError};
use crate::grammar;
use crate::grammar::{parsed, views};
use crate::statement::{Statement, StatementView};
use crate::utils;
use vstd::prelude::*;
use vstd::string::*;

verus! {

/// The definition of a function: `fn`, a name, the names of the parameters,
/// `=>`, and the statement that is the body.
#[derive(Debug, PartialEq)]
pub struct FuncDef {
    pub name: String,
    pub params: Vec<String>,
    pub body: Box<Statement>,
}

/// The mathematical value of a [`FuncDef`].
pub ghost struct FuncDefView {
    pub name: Seq<char>,
    pub params: Seq<Seq<char>>,
    pub body: Box<StatementView>,
}

impl FuncDef {
    /// The definition as a mathematical value; `self@` is the same.
    pub open spec fn model(&self) -> FuncDefView
        decreases self,
    {
        FuncDefView {
            name: self.name@,
            params: views(self.params@),
            body: Box::new(self.body.model()),
        }
    }
}

/// Reads an identifier and copies it.
fn owned_ident<'a>(s: &'a str) -> (r: Result<(&'a str, String), ParseError>)
    ensures
        parsed(r) == grammar::ident(s@),
{
    let (rest, name) = utils::extract_ident(s)?;
    Ok((rest, name.to_string()))
}

impl FuncDef {
    /// Reads the definition of a function: `fn`, whitespace, a name, the
    /// names of the parameters with whitespace between them, `=>` and a
    /// statement, with whitespace allowed after the name and around `=>`.
    /// Fails as the first of these that is missing does.
    pub fn new<'a>(s: &'a str) -> (r: Result<(&'a str, FuncDef), ParseError>)
        ensures
            parsed(r) == grammar::func_def(s@),
        decreases s@.len(), 5nat,
    {
        let rest = utils::tag("fn", s)?;
        let (rest, _) = utils::extract_whitespace_non_empty(rest)?;

        let (rest, name) = utils::extract_ident(rest)?;
        let (rest, _) = utils::extract_whitespace(rest);

        proof {
            broadcast use grammar::group_lexical_rules_shrink;

        }
        let ghost start = rest@;
        let (rest, params) = utils::sequence(
            owned_ident,
            utils::extract_whitespace_non_empty,
            rest,
            Ghost(|t: Seq<char>| grammar::ident(t)),
            Ghost(|t: Seq<char>| grammar::required_whitespace(t)),
        );
        let (rest, _) = utils::extract_whitespace(rest);

        let rest = utils::tag("=>", rest)?;
        let (rest, _) = utils::extract_whitespace(rest);

        proof {
            grammar::lemma_sequence_shrinks(
                |t: Seq<char>| grammar::ident(t),
                |t: Seq<char>| grammar::required_whitespace(t),
                start,
            );
        }
        let (rest, body) = Statement::new(rest)?;

        Ok((rest, FuncDef { name: name.to_string(), params, body: Box::new(body) }))
    }
}

impl FuncDef {
    /// Binds the name to the function in `env` itself; never fails.
    pub fn eval(&self, env: &mut Env) -> (r: Result<(), EvalError>)
        ensures
            r is Ok,
            final(env)@ == old(env)@.insert(
                self@.name,
                NamedInfoView::Func { params: self@.params, body: *self@.body },
            ),
            final(env).parent() == old(env).parent(),
    {
        env.store_func(self.name.clone(), clone_names(&self.params), (&*self.body).clone());
        Ok(())
    }
}

impl View for FuncDef {
    type V = FuncDefView;

    open spec fn view(&self) -> FuncDefView {
        self.model()
    }
}

/// Copies a list of names.
pub fn clone_names(names: &Vec<String>) -> (copy: Vec<String>)
    ensures
        views(copy@) == views(names@),
{
    let mut copy: Vec<String> = Vec::new();
    let mut i: usize = 0;
    while i < names.len()
        invariant
            i <= names.len(),
            copy.len() == i,
            forall|j: int| 0 <= j < i ==> copy@[j]@ == names@[j]@,
        decreases names.len() - i,
    {
        copy.push(names[i].clone());
        i = i + 1;
    }
    assert(views(copy@) =~= views(names@));
    copy
}

impl Clone for FuncDef {
    fn clone(&self) -> (copy: Self)
        ensures
            copy@ == self@,
        decreases self,
    {
        FuncDef {
            name: self.name.clone(),
            params: clone_names(&self.params),
            body: Box::new((&*self.body).clone()),
        }
    }
}

} // verus!
