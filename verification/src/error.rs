use vstd::prelude::*;
use vstd::string::*;

verus! {

/// Why a piece of source text could not be parsed.
#[derive(Debug, PartialEq, Eq)]
pub enum ParseError {
    /// The input does not start with the given literal text.
    ExpectedLiteral(String),
    /// The input does not start with a letter.
    ExpectedIdentifier,
    /// The input does not start with a decimal digit.
    ExpectedDigits,
    /// The input does not start with a space or a newline.
    ExpectedWhitespace,
    /// One statement was parsed, but some input is left after it.
    IncompleteParse,
    /// A run of digits denotes a number above `i32::MAX`.
    NumberTooLarge,
}

/// The mathematical value of a [`ParseError`].
pub ghost enum ParseErrorView {
    ExpectedLiteral(Seq<char>),
    ExpectedIdentifier,
    ExpectedDigits,
    ExpectedWhitespace,
    IncompleteParse,
    NumberTooLarge,
}

impl View for ParseError {
    type V = ParseErrorView;

    open spec fn view(&self) -> ParseErrorView {
        match self {
            ParseError::ExpectedLiteral(text) => ParseErrorView::ExpectedLiteral(text@),
            ParseError::ExpectedIdentifier => ParseErrorView::ExpectedIdentifier,
            ParseError::ExpectedDigits => ParseErrorView::ExpectedDigits,
            ParseError::ExpectedWhitespace => ParseErrorView::ExpectedWhitespace,
            ParseError::IncompleteParse => ParseErrorView::IncompleteParse,
            ParseError::NumberTooLarge => ParseErrorView::NumberTooLarge,
        }
    }
}

impl ParseErrorView {
    /// The text that describes the error to a user.
    pub open spec fn message(self) -> Seq<char> {
        match self {
            ParseErrorView::ExpectedLiteral(text) => "Expected \""@ + text + "\""@,
            ParseErrorView::ExpectedIdentifier => "Expected identifier"@,
            ParseErrorView::ExpectedDigits => "Expected digits"@,
            ParseErrorView::ExpectedWhitespace => "Expected whitespace"@,
            ParseErrorView::IncompleteParse => "Input was not consumed fully by parser"@,
            ParseErrorView::NumberTooLarge => "Number is too large"@,
        }
    }
}

impl ParseError {
    /// The text that describes the error to a user.
    pub fn message(&self) -> (text: String)
        ensures
            text@ == self@.message(),
    {
        match self {
            ParseError::ExpectedLiteral(literal) => {
                let mut text = "Expected \"".to_string();
                text.append(literal.as_str());
                text.append("\"");
                text
            },
            ParseError::ExpectedIdentifier => "Expected identifier".to_string(),
            ParseError::ExpectedDigits => "Expected digits".to_string(),
            ParseError::ExpectedWhitespace => "Expected whitespace".to_string(),
            ParseError::IncompleteParse => "Input was not consumed fully by parser".to_string(),
            ParseError::NumberTooLarge => "Number is too large".to_string(),
        }
    }
}

impl Clone for ParseError {
    fn clone(&self) -> (copy: Self)
        ensures
            copy@ == self@,
    {
        match self {
            ParseError::ExpectedLiteral(text) => ParseError::ExpectedLiteral(text.clone()),
            ParseError::ExpectedIdentifier => ParseError::ExpectedIdentifier,
            ParseError::ExpectedDigits => ParseError::ExpectedDigits,
            ParseError::ExpectedWhitespace => ParseError::ExpectedWhitespace,
            ParseError::IncompleteParse => ParseError::IncompleteParse,
            ParseError::NumberTooLarge => ParseError::NumberTooLarge,
        }
    }
}

/// Why a statement or an expression could not be evaluated.
#[derive(Debug, PartialEq, Eq)]
pub enum EvalError {
    /// No scope from the innermost outwards binds the name to a value.
    UndefinedBinding(String),
    /// No scope from the innermost outwards binds the name to a function.
    UndefinedFunction(String),
    /// The right-hand side of a division is zero.
    DivisionByZero,
    /// An operand of an operation is not a number.
    TypeMismatch,
    /// The result of an operation does not fit in an `i32`.
    Overflow,
}

/// The mathematical value of an [`EvalError`].
pub ghost enum EvalErrorView {
    UndefinedBinding(Seq<char>),
    UndefinedFunction(Seq<char>),
    DivisionByZero,
    TypeMismatch,
    Overflow,
}

impl View for EvalError {
    type V = EvalErrorView;

    open spec fn view(&self) -> EvalErrorView {
        match self {
            EvalError::UndefinedBinding(name) => EvalErrorView::UndefinedBinding(name@),
            EvalError::UndefinedFunction(name) => EvalErrorView::UndefinedFunction(name@),
            EvalError::DivisionByZero => EvalErrorView::DivisionByZero,
            EvalError::TypeMismatch => EvalErrorView::TypeMismatch,
            EvalError::Overflow => EvalErrorView::Overflow,
        }
    }
}

impl EvalErrorView {
    /// The text that describes the error to a user.
    pub open spec fn message(self) -> Seq<char> {
        match self {
            EvalErrorView::UndefinedBinding(name) => "binding with name ‘"@ + name
                + "’ does not exist"@,
            EvalErrorView::UndefinedFunction(name) => "function with name ‘"@ + name
                + "’ does not exist"@,
            EvalErrorView::DivisionByZero => "division by zero"@,
            EvalErrorView::TypeMismatch =>
                "cannot evaluate operation whose left-hand side and right-hand side are not both numbers"@,
            EvalErrorView::Overflow => "arithmetic overflow"@,
        }
    }
}

impl EvalError {
    /// The text that describes the error to a user.
    pub fn message(&self) -> (text: String)
        ensures
            text@ == self@.message(),
    {
        match self {
            EvalError::UndefinedBinding(name) => {
                let mut text = "binding with name ‘".to_string();
                text.append(name.as_str());
                text.append("’ does not exist");
                text
            },
            EvalError::UndefinedFunction(name) => {
                let mut text = "function with name ‘".to_string();
                text.append(name.as_str());
                text.append("’ does not exist");
                text
            },
            EvalError::DivisionByZero => "division by zero".to_string(),
            EvalError::TypeMismatch =>
                "cannot evaluate operation whose left-hand side and right-hand side are not both numbers".to_string(),
            EvalError::Overflow => "arithmetic overflow".to_string(),
        }
    }
}

/// The value of what an evaluation returned.
pub open spec fn eval_result<T>(r: Result<T, EvalError>) -> Result<T, EvalErrorView> {
    match r {
        Ok(value) => Ok(value),
        Err(e) => Err(e@),
    }
}

} // verus!
