//! A small language of numbers, operations, bindings, functions and blocks:
//! text is parsed into a statement, and a statement is evaluated in an
//! environment.

use vstd::prelude::*;
use vstd::string::*;

pub mod binding_def;
pub mod env;
pub mod error;
pub mod expr;
pub mod func_def;
pub mod grammar;
pub mod remainder;
pub mod semantics;
pub mod statement;
pub mod utils;
pub mod val;

pub use env::Env;
pub use error::{EvalError, ParseError};
pub use val::Val;

use error::{eval_result, ParseErrorView};
use statement::{Statement, StatementView};

verus! {

/// A statement that was parsed from a whole input.
pub struct Parse(Statement);

impl View for Parse {
    type V = StatementView;

    closed spec fn view(&self) -> StatementView {
        self.0@
    }
}

impl Parse {
    /// Evaluates the statement in `env`, which keeps what the statement
    /// defines.
    pub fn eval(&self, env: &mut Env) -> (r: Result<Val, EvalError>)
        ensures
            (eval_result(r), final(env)@) == semantics::eval_statement(self@, old(env)@),
            final(env).parent() == old(env).parent(),
    {
        self.0.eval(env)
    }
}

/// The value of what [`parse`] returned.
pub open spec fn parse_result(r: Result<Parse, ParseError>) -> Result<StatementView, ParseErrorView> {
    match r {
        Ok(parsed) => Ok(parsed@),
        Err(e) => Err(e@),
    }
}

/// Parses `s` as one statement. Fails as the statement does, and with
/// `IncompleteParse` where a statement is read but some of `s` is left.
pub fn parse(s: &str) -> (r: Result<Parse, ParseError>)
    ensures
        parse_result(r) == grammar::program(s@),
{
    let (rest, stmt) = Statement::new(s)?;
    if rest.unicode_len() == 0 {
        Ok(Parse(stmt))
    } else {
        Err(ParseError::IncompleteParse)
    }
}

/// What a line of input comes to in `env`: the value that is to be shown, if
/// there is one, or the text of the failure.
pub open spec fn outcome(input: Seq<char>, env: env::Bindings) -> Result<Option<Val>, Seq<char>> {
    match grammar::program(input) {
        Err(e) => Err("Parse error: "@ + e.message()),
        Ok(stmt) => match semantics::eval_statement(stmt, env).0 {
            Err(e) => Err("Evaluation error: "@ + e.message()),
            Ok(Val::Unit) => Ok(None),
            Ok(value) => Ok(Some(value)),
        },
    }
}

/// What `env` is after a line of input: as it was where the line does not
/// parse, and else as the statement leaves it.
pub open spec fn env_after(input: Seq<char>, env: env::Bindings) -> env::Bindings {
    match grammar::program(input) {
        Err(_) => env,
        Ok(stmt) => semantics::eval_statement(stmt, env).1,
    }
}

/// The value of what [`run`] returned.
pub open spec fn run_result(r: Result<Option<Val>, String>) -> Result<Option<Val>, Seq<char>> {
    match r {
        Ok(shown) => Ok(shown),
        Err(text) => Err(text@),
    }
}

/// Parses `input` as one statement and evaluates it in `env`. Returns the
/// value, or nothing where the value is `Unit`. Fails with the text of the
/// failure after `Parse error: ` or `Evaluation error: `.
pub fn run(input: &str, env: &mut Env) -> (r: Result<Option<Val>, String>)
    ensures
        run_result(r) == outcome(input@, old(env)@),
        final(env)@ == env_after(input@, old(env)@),
        final(env).parent() == old(env).parent(),
{
    let parsed = match parse(input) {
        Ok(parsed) => parsed,
        Err(e) => {
            let mut text = "Parse error: ".to_string();
            text.append(e.message().as_str());
            return Err(text);
        },
    };
    match parsed.eval(env) {
        Ok(Val::Unit) => Ok(None),
        Ok(value) => Ok(Some(value)),
        Err(e) => {
            let mut text = "Evaluation error: ".to_string();
            text.append(e.message().as_str());
            Err(text)
        },
    }
}

} // verus!
