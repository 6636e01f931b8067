use compiler::binding_def::BindingDef;
use compiler::error::ParseError;
use compiler::expr::{BindingUsage, Block, Expr, Number, Op};
use compiler::func_def::FuncDef;
use compiler::statement::Statement;

fn number(n: i32) -> Expr {
    Expr::Number(Number(n))
}

fn usage(name: &str) -> Expr {
    Expr::BindingUsage(BindingUsage { name: name.to_string() })
}

#[test]
fn binding_def_parse_binding_def() {
    assert_eq!(
        BindingDef::new("let a = 10 / 2"),
        Ok((
            "",
            BindingDef {
                name: "a".to_string(),
                val: Expr::Operation {
                    lhs: Box::new(Expr::Number(Number(10))),
                    rhs: Box::new(Expr::Number(Number(2))),
                    op: Op::Div,
                },
            },
        )),
    );
}

#[test]
fn cannot_parse_binding_def_without_space_after_let() {
    assert_eq!(BindingDef::new("letaaa=1+2"), Err(ParseError::ExpectedWhitespace));
    assert_eq!(
        BindingDef::new("letaaa=1+2").unwrap_err().message(),
        "Expected whitespace".to_string(),
    );
}

#[test]
fn parse_binding_usage() {
    assert_eq!(
        BindingUsage::new("abc"),
        Ok(("", BindingUsage { name: "abc".to_string() })),
    );
}

#[test]
fn parse_empty_block() {
    assert_eq!(Block::new("{}"), Ok(("", Block { stmts: Vec::new() })));
}

#[test]
fn parse_empty_block_with_whitespace() {
    assert_eq!(Block::new("{   }"), Ok(("", Block { stmts: Vec::new() })));
}

#[test]
fn parse_block_with_one_stmt() {
    assert_eq!(
        Block::new("{ 5 }"),
        Ok(("", Block { stmts: vec![Statement::Expr(Expr::Number(Number(5)))] })),
    );
}

#[test]
fn parse_block_with_multiple_stmts() {
    assert_eq!(
        Block::new(
            "{
    let a = 10
    let b = a
    b
}",
        ),
        Ok((
            "",
            Block {
                stmts: vec![
                    Statement::BindingDef(BindingDef {
                        name: "a".to_string(),
                        val: Expr::Number(Number(10)),
                    }),
                    Statement::BindingDef(BindingDef {
                        name: "b".to_string(),
                        val: Expr::BindingUsage(BindingUsage { name: "a".to_string() }),
                    }),
                    Statement::Expr(Expr::BindingUsage(BindingUsage { name: "b".to_string() })),
                ],
            },
        )),
    );
}

#[test]
fn parse_func_def_with_multiple_params() {
    assert_eq!(
        FuncDef::new("fn add x y => x + y"),
        Ok((
            "",
            FuncDef {
                name: "add".to_string(),
                params: vec!["x".to_string(), "y".to_string()],
                body: Box::new(Statement::Expr(Expr::Operation {
                    lhs: Box::new(usage("x")),
                    rhs: Box::new(usage("y")),
                    op: Op::Add,
                })),
            },
        )),
    );
}

#[test]
fn parse_expr() {
    assert_eq!(
        Statement::new("1+1"),
        Ok((
            "",
            Statement::Expr(Expr::Operation {
                lhs: Box::new(Expr::Number(Number(1))),
                rhs: Box::new(Expr::Number(Number(1))),
                op: Op::Add,
            }),
        )),
    );
}

#[test]
fn parse_func_def() {
    assert_eq!(
        Statement::new("fn identity x => x"),
        Ok((
            "",
            Statement::FuncDef(FuncDef {
                name: "identity".to_string(),
                params: vec!["x".to_string()],
                body: Box::new(Statement::Expr(usage("x"))),
            }),
        )),
    );
}

#[test]
fn parse_func_def_with_no_params_and_empty_body() {
    assert_eq!(
        FuncDef::new("fn nothing => {}"),
        Ok((
            "",
            FuncDef {
                name: "nothing".to_string(),
                params: Vec::new(),
                body: Box::new(Statement::Expr(Expr::Block(Block { stmts: Vec::new() }))),
            },
        )),
    );
}

#[test]
fn parse_func_def_with_one_param_and_empty_body() {
    assert_eq!(
        FuncDef::new("fn greet name => {}"),
        Ok((
            "",
            FuncDef {
                name: "greet".to_string(),
                params: vec!["name".to_string()],
                body: Box::new(Statement::Expr(Expr::Block(Block { stmts: Vec::new() }))),
            },
        )),
    );
}

#[test]
fn parse_number_and_operators() {
    assert_eq!(Number::new("123 "), Ok((" ", Number(123))));
    assert_eq!(Number::new("2147483647"), Ok(("", Number(2147483647))));
    assert_eq!(Number::new("2147483648"), Err(ParseError::NumberTooLarge));
    assert_eq!(Number::new("x"), Err(ParseError::ExpectedDigits));
    assert_eq!(Op::new("+1"), Ok(("1", Op::Add)));
    assert_eq!(Op::new("-1"), Ok(("1", Op::Sub)));
    assert_eq!(Op::new("*1"), Ok(("1", Op::Mul)));
    assert_eq!(Op::new("/1"), Ok(("1", Op::Div)));
    assert_eq!(Op::new("%"), Err(ParseError::ExpectedLiteral("/".to_string())));
}

#[test]
fn parse_operation_with_whitespace_and_blocks() {
    assert_eq!(
        Expr::new("{ 1 }  *  x rest"),
        Ok((
            " rest",
            Expr::Operation {
                lhs: Box::new(Expr::Block(Block { stmts: vec![Statement::Expr(number(1))] })),
                rhs: Box::new(usage("x")),
                op: Op::Mul,
            },
        )),
    );
    assert_eq!(Expr::new("7 + "), Ok((" + ", number(7))));
    assert_eq!(Expr::new("?"), Err(ParseError::ExpectedLiteral("{".to_string())));
}

#[test]
fn block_statements_need_whitespace_between_them() {
    assert_eq!(Block::new("{1{}}"), Err(ParseError::ExpectedLiteral("}".to_string())));
    assert_eq!(Block::new("{ 1"), Err(ParseError::ExpectedLiteral("}".to_string())));
    assert_eq!(Block::new("1"), Err(ParseError::ExpectedLiteral("{".to_string())));
}

#[test]
fn func_def_failures() {
    assert_eq!(FuncDef::new("let a = 1"), Err(ParseError::ExpectedLiteral("fn".to_string())));
    assert_eq!(FuncDef::new("fnf => 1"), Err(ParseError::ExpectedWhitespace));
    assert_eq!(FuncDef::new("fn 1 => 1"), Err(ParseError::ExpectedIdentifier));
    assert_eq!(FuncDef::new("fn f x 1"), Err(ParseError::ExpectedLiteral("=>".to_string())));
    assert_eq!(
        FuncDef::new("fn f x=>x"),
        Ok((
            "",
            FuncDef {
                name: "f".to_string(),
                params: vec!["x".to_string()],
                body: Box::new(Statement::Expr(usage("x"))),
            },
        )),
    );
}
