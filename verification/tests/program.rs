use compiler::error::{EvalError, ParseError};
use compiler::{parse, run, Env, Val};

#[test]
fn parse_needs_the_whole_input() {
    assert!(parse("let a = 10 / 2").is_ok());
    let failure = parse("1 2").err();
    assert_eq!(failure, Some(ParseError::IncompleteParse));
    assert_eq!(
        failure.unwrap().message(),
        "Input was not consumed fully by parser".to_string(),
    );
    assert_eq!(parse("").err(), Some(ParseError::ExpectedLiteral("{".to_string())));
    assert_eq!(
        parse("%").err().unwrap().message(),
        "Expected \"{\"".to_string(),
    );
}

#[test]
fn parse_then_eval_keeps_definitions() {
    let mut env = Env::default();
    assert_eq!(parse("let a = 10 / 2").unwrap().eval(&mut env), Ok(Val::Unit));
    assert_eq!(parse("{ let b = a * 3  b - 1 }").unwrap().eval(&mut env), Ok(Val::Number(14)));
    assert_eq!(
        parse("b").unwrap().eval(&mut env),
        Err(EvalError::UndefinedBinding("b".to_string())),
    );
    assert_eq!(parse("{}").unwrap().eval(&mut env), Ok(Val::Unit));
    assert_eq!(
        parse("{ let foo = 5  let bar = 4  let baz = 3 }").unwrap().eval(&mut env),
        Ok(Val::Unit),
    );
    assert_eq!(parse("{ let one = 1  one }").unwrap().eval(&mut env), Ok(Val::Number(1)));
}

#[test]
fn run_reports_values_and_failures() {
    let mut env = Env::default();
    assert_eq!(run("let a = 4", &mut env), Ok(None));
    assert_eq!(run("a * a", &mut env), Ok(Some(Val::Number(16))));
    assert_eq!(run("fn id x => x", &mut env), Ok(None));
    assert_eq!(
        run("letaaa=1+2", &mut env),
        Err("Parse error: Input was not consumed fully by parser".to_string()),
    );
    assert_eq!(run("%", &mut env), Err("Parse error: Expected \"{\"".to_string()));
    assert_eq!(
        run("a / 0", &mut env),
        Err("Evaluation error: division by zero".to_string()),
    );
    assert_eq!(
        run("c", &mut env),
        Err("Evaluation error: binding with name ‘c’ does not exist".to_string()),
    );
    assert_eq!(
        run("{} + 1", &mut env),
        Err("Evaluation error: cannot evaluate operation whose left-hand side and right-hand side are not both numbers".to_string()),
    );
    assert_eq!(
        run("2147483647 + 1", &mut env),
        Err("Evaluation error: arithmetic overflow".to_string()),
    );
    assert_eq!(ParseError::NumberTooLarge.message(), "Number is too large".to_string());
}
