//! Expressions: numbers, operations on two operands, uses of a binding, and
//! blocks.

pub mod binding_usage;
pub mod block;

pub use binding_usage::BindingUsage;
pub use block::Block;

use crate::env::Env;
use crate::error::{eval_result, EvalError, EvalErrorView, ParseError};
use crate::grammar;
use crate::grammar::parsed;
use crate::semantics;
use crate::statement::StatementView;
use crate::utils;
use crate::val::Val;
use vstd::prelude::*;
use vstd::string::*;

verus! {

/// A number as the source text writes it.
#[derive(Debug, PartialEq, Eq)]
pub struct Number(pub i32);

impl View for Number {
    type V = i32;

    open spec fn view(&self) -> i32 {
        self.0
    }
}

/// The value of a run of digits grows with the run.
proof fn lemma_decimal_value_grows(run: Seq<char>, n: int)
    requires
        0 <= n <= run.len(),
        forall|i: int| 0 <= i < run.len() ==> grammar::is_digit(#[trigger] run[i]),
    ensures
        grammar::decimal_value(run.take(n)) <= grammar::decimal_value(run),
    decreases run.len() - n,
{
    if n < run.len() {
        assert(run.take(n + 1).drop_last() =~= run.take(n));
        lemma_decimal_value_grows(run, n + 1);
    } else {
        assert(run.take(n) =~= run);
    }
}

/// The number that `run` denotes, where it is at most `i32::MAX`.
fn value_of_digits(run: &str) -> (value: Option<i32>)
    requires
        forall|i: int| 0 <= i < run@.len() ==> grammar::is_digit(#[trigger] run@[i]),
    ensures
        value == (if grammar::decimal_value(run@) <= i32::MAX {
            Some(grammar::decimal_value(run@) as i32)
        } else {
            None
        }),
{
    let len = run.unicode_len();
    let mut total: i32 = 0;
    let mut i: usize = 0;
    while i < len
        invariant
            len == run@.len(),
            i <= len,
            forall|j: int| 0 <= j < run@.len() ==> grammar::is_digit(#[trigger] run@[j]),
            total == grammar::decimal_value(run@.take(i as int)),
        decreases len - i,
    {
        let digit: i32 = (run.get_char(i) as u32 - '0' as u32) as i32;
        proof {
            assert(run@.take(i + 1).drop_last() =~= run@.take(i as int));
            lemma_decimal_value_grows(run@, i + 1);
        }
        if total > (i32::MAX - digit) / 10 {
            return None;
        }
        total = 10 * total + digit;
        i = i + 1;
    }
    assert(run@.take(len as int) =~= run@);
    Some(total)
}

impl Number {
    /// Reads a number: a run of digits. Fails with `ExpectedDigits` where `s`
    /// does not start with a digit, and with `NumberTooLarge` where the run
    /// denotes a number above `i32::MAX`.
    pub fn new(s: &str) -> (r: Result<(&str, Number), ParseError>)
        ensures
            parsed(r) == grammar::number(s@),
    {
        let (rest, run) = utils::extract_digits(s)?;
        proof {
            grammar::lemma_prefix_len(|c: char| grammar::is_digit(c), s@);
        }
        match value_of_digits(run) {
            Some(value) => Ok((rest, Number(value))),
            None => Err(ParseError::NumberTooLarge),
        }
    }
}

impl Clone for Number {
    fn clone(&self) -> (copy: Self)
        ensures
            copy@ == self@,
    {
        Number(self.0)
    }
}

/// The four operations on two numbers.
#[derive(Debug, Clone, Copy, PartialEq, Eq, Structural)]
pub enum Op {
    Add,
    Sub,
    Mul,
    Div,
}

impl Op {
    /// Reads one of `+`, `-`, `*` and `/`. Fails with `ExpectedLiteral` of
    /// `/` where `s` starts with none of them.
    pub fn new(s: &str) -> (r: Result<(&str, Op), ParseError>)
        ensures
            parsed(r) == grammar::operator(s@),
    {
        if let Ok(rest) = utils::tag("+", s) {
            Ok((rest, Op::Add))
        } else if let Ok(rest) = utils::tag("-", s) {
            Ok((rest, Op::Sub))
        } else if let Ok(rest) = utils::tag("*", s) {
            Ok((rest, Op::Mul))
        } else {
            match utils::tag("/", s) {
                Ok(rest) => Ok((rest, Op::Div)),
                Err(e) => Err(e),
            }
        }
    }
}

impl Op {
    /// Applies the operation to two numbers. Fails with `DivisionByZero` for
    /// a division by zero, and with `Overflow` where the exact result is no
    /// `i32`.
    pub fn apply(self, lhs: i32, rhs: i32) -> (r: Result<Val, EvalError>)
        ensures
            eval_result(r) == semantics::apply(self, lhs, rhs),
    {
        let (lhs, rhs): (i64, i64) = (lhs as i64, rhs as i64);
        let result: i64 = match self {
            Op::Add => lhs + rhs,
            Op::Sub => lhs - rhs,
            Op::Mul => {
                assert(-0x8000_0000 * 0x8000_0000 <= lhs * rhs <= 0x8000_0000 * 0x8000_0000)
                    by (nonlinear_arith)
                    requires
                        -0x8000_0000 <= lhs < 0x8000_0000,
                        -0x8000_0000 <= rhs < 0x8000_0000,
                ;
                lhs * rhs
            },
            Op::Div => {
                if rhs == 0 {
                    return Err(EvalError::DivisionByZero);
                }
                let dividend: i64 = if lhs < 0 { -lhs } else { lhs };
                let divisor: i64 = if rhs < 0 { -rhs } else { rhs };
                let magnitude: i64 = dividend / divisor;
                if (lhs < 0) == (rhs < 0) {
                    magnitude
                } else {
                    -magnitude
                }
            },
        };
        if result < i32::MIN as i64 || result > i32::MAX as i64 {
            Err(EvalError::Overflow)
        } else {
            Ok(Val::Number(result as i32))
        }
    }
}

impl View for Op {
    type V = Op;

    open spec fn view(&self) -> Op {
        *self
    }
}

/// An expression.
#[derive(Debug, PartialEq)]
pub enum Expr {
    Number(Number),
    Operation { lhs: Box<Expr>, rhs: Box<Expr>, op: Op },
    BindingUsage(BindingUsage),
    Block(Block),
}

/// The mathematical value of an [`Expr`]: names are sequences of characters,
/// and a block is the sequence of its statements.
pub ghost enum ExprView {
    Number(i32),
    Operation { lhs: Box<ExprView>, rhs: Box<ExprView>, op: Op },
    BindingUsage(Seq<char>),
    Block(Seq<StatementView>),
}

impl Expr {
    /// The expression as a mathematical value; `self@` is the same.
    pub open spec fn model(&self) -> ExprView
        decreases self,
    {
        match self {
            Expr::Number(number) => ExprView::Number(number.0),
            Expr::Operation { lhs, rhs, op } => ExprView::Operation {
                lhs: Box::new(lhs.model()),
                rhs: Box::new(rhs.model()),
                op: *op,
            },
            Expr::BindingUsage(usage) => ExprView::BindingUsage(usage.name@),
            Expr::Block(block) => ExprView::Block(block.model()),
        }
    }
}

impl Expr {
    /// Reads an expression: an operation, else a single operand. Fails as
    /// the block does where `s` starts with no operand.
    pub fn new(s: &str) -> (r: Result<(&str, Expr), ParseError>)
        ensures
            parsed(r) == grammar::expr(s@),
        decreases s@.len(), 4nat,
    {
        match Self::new_operation(s) {
            Ok(read) => Ok(read),
            Err(_) => Self::new_non_operation(s),
        }
    }

    /// Reads an operand: a number, else the use of a binding, else a block.
    pub fn new_non_operation(s: &str) -> (r: Result<(&str, Expr), ParseError>)
        ensures
            parsed(r) == grammar::atom(s@),
        decreases s@.len(), 2nat,
    {
        if let Ok((rest, number)) = Number::new(s) {
            Ok((rest, Expr::Number(number)))
        } else if let Ok((rest, usage)) = BindingUsage::new(s) {
            Ok((rest, Expr::BindingUsage(usage)))
        } else {
            match Block::new(s) {
                Ok((rest, block)) => Ok((rest, Expr::Block(block))),
                Err(e) => Err(e),
            }
        }
    }

    /// Reads an operation: an operand, an operator and an operand, with
    /// whitespace allowed around the operator.
    pub fn new_operation(s: &str) -> (r: Result<(&str, Expr), ParseError>)
        ensures
            parsed(r) == grammar::operation(s@),
        decreases s@.len(), 3nat,
    {
        let (rest, lhs) = Self::new_non_operation(s)?;
        let (rest, _) = utils::extract_whitespace(rest);
        let (rest, op) = Op::new(rest)?;
        let (rest, _) = utils::extract_whitespace(rest);
        proof {
            broadcast use grammar::group_lexical_rules_shrink;

            grammar::lemma_atom_shrinks(s@);
        }
        let (rest, rhs) = Self::new_non_operation(rest)?;
        Ok((rest, Expr::Operation { lhs: Box::new(lhs), rhs: Box::new(rhs), op }))
    }
}

impl Expr {
    /// Evaluates the expression in `env`: a number is itself, an operation
    /// is applied to the values of its operands, the left one first, the use
    /// of a binding is looked up, and a block is evaluated in a scope of its
    /// own. The first failure is the failure of the whole.
    pub fn eval(&self, env: &Env) -> (r: Result<Val, EvalError>)
        ensures
            eval_result(r) == semantics::eval_expr(self@, env@),
        decreases self,
    {
        match self {
            Expr::Number(number) => Ok(Val::Number(number.0)),
            Expr::Operation { lhs, rhs, op } => {
                let lhs = lhs.eval(env)?;
                let rhs = rhs.eval(env)?;
                match (lhs, rhs) {
                    (Val::Number(lhs), Val::Number(rhs)) => op.apply(lhs, rhs),
                    _ => Err(EvalError::TypeMismatch),
                }
            },
            Expr::BindingUsage(usage) => usage.eval(env),
            Expr::Block(block) => block.eval(env),
        }
    }
}

impl View for Expr {
    type V = ExprView;

    open spec fn view(&self) -> ExprView {
        self.model()
    }
}

impl Clone for Expr {
    fn clone(&self) -> (copy: Self)
        ensures
            copy@ == self@,
        decreases self,
    {
        match self {
            Expr::Number(number) => Expr::Number(number.clone()),
            Expr::Operation { lhs, rhs, op } => Expr::Operation {
                lhs: Box::new((&**lhs).clone()),
                rhs: Box::new((&**rhs).clone()),
                op: *op,
            },
            Expr::BindingUsage(usage) => Expr::BindingUsage(usage.clone()),
            Expr::Block(block) => Expr::Block(block.clone()),
        }
    }
}

} // verus!
