use crate::env::Env;
use crate::error::{eval_result, EvalError, ParseError};
use crate::grammar;
use crate::grammar::{parsed, views};
use crate::statement::{Statement, StatementView};
use crate::semantics;
use crate::utils;
use crate::val::Val;
use vstd::prelude::*;

verus! {

/// Statements between braces, evaluated in a scope of their own.
#[derive(Debug, PartialEq)]
pub struct Block {
    pub stmts: Vec<Statement>,
}

impl Block {
    /// The statements of the block as mathematical values; `self@` is the
    /// same.
    pub open spec fn model(&self) -> Seq<StatementView>
        decreases self,
    {
        Seq::new(
            self.stmts@.len(),
            |i: int|
                if 0 <= i < self.stmts@.len() {
                    self.stmts@[i].model()
                } else {
                    arbitrary()
                },
        )
    }
}

impl Block {
    /// Reads a block: `{`, statements with whitespace between them, and `}`.
    /// Fails with `ExpectedLiteral` of the brace that is missing.
    pub fn new<'a>(s: &'a str) -> (r: Result<(&'a str, Block), ParseError>)
        ensures
            parsed(r) == grammar::block(s@),
        decreases s@.len(), 1nat,
    {
        let rest = utils::tag("{", s)?;
        let (rest, _) = utils::extract_whitespace(rest);
        proof {
            broadcast use grammar::group_lexical_rules_shrink;

            reveal_strlit("{");
            assert forall|t: Seq<char>| t.len() <= rest@.len() implies (
            #[trigger] grammar::statement_below(s@.len())(t) matches Ok((after, _))
                ==> after.len() < t.len()) by {
                grammar::lemma_statement_shrinks(t);
            }
        }
        let statement = |t: &'a str| -> (out: Result<(&'a str, Statement), ParseError>)
            requires
                t@.len() < s@.len(),
            ensures
                parsed(out) == grammar::statement(t@),
            {
                Statement::new(t)
            };
        let (rest, stmts) = utils::sequence(
            statement,
            utils::extract_whitespace_non_empty,
            rest,
            Ghost(grammar::statement_below(s@.len())),
            Ghost(|t: Seq<char>| grammar::required_whitespace(t)),
        );
        let (rest, _) = utils::extract_whitespace(rest);
        let rest = utils::tag("}", rest)?;
        let block = Block { stmts };
        assert(block@ =~= views(stmts@));
        Ok((rest, block))
    }
}

impl Block {
    /// Evaluates the block in a scope of its own inside `env`: `Unit` for an
    /// empty block, and else the value of the last statement, after the
    /// statements before it. The first failure is the failure of the whole.
    /// What the block defines is gone when it ends.
    pub fn eval(&self, env: &Env) -> (r: Result<Val, EvalError>)
        ensures
            eval_result(r) == semantics::eval_block(self@, env@),
        decreases self,
    {
        if self.stmts.len() == 0 {
            return Ok(Val::Unit);
        }
        let mut child_env = env.create_child();
        let last = self.stmts.len() - 1;
        let mut i: usize = 0;
        while i < last
            invariant
                last + 1 == self.stmts.len(),
                i <= last,
                semantics::eval_block(self@, env@) == semantics::eval_from(
                    self@,
                    i as nat,
                    child_env@,
                ),
            decreases last - i,
        {
            match self.stmts[i].eval(&mut child_env) {
                Ok(_) => {},
                Err(e) => {
                    return Err(e);
                },
            }
            i = i + 1;
        }
        self.stmts[last].eval(&mut child_env)
    }
}

impl View for Block {
    type V = Seq<StatementView>;

    open spec fn view(&self) -> Seq<StatementView> {
        self.model()
    }
}

impl Clone for Block {
    fn clone(&self) -> (copy: Self)
        ensures
            copy@ == self@,
        decreases self,
    {
        let mut stmts: Vec<Statement> = Vec::new();
        let mut i: usize = 0;
        while i < self.stmts.len()
            invariant
                i <= self.stmts.len(),
                stmts.len() == i,
                forall|j: int| 0 <= j < i ==> stmts@[j]@ == self.stmts@[j]@,
            decreases self.stmts.len() - i,
        {
            stmts.push(self.stmts[i].clone());
            i = i + 1;
        }
        let copy = Block { stmts };
        assert(copy@ =~= self@);
        copy
    }
}

} // verus!
