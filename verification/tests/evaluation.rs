use compiler::binding_def::BindingDef;
use compiler::env::Env;
use compiler::error::EvalError;
use compiler::expr::{BindingUsage, Block, Expr, Number, Op};
use compiler::func_def::FuncDef;
use compiler::statement::Statement;
use compiler::val::Val;

fn number(n: i32) -> Expr {
    Expr::Number(Number(n))
}

fn usage(name: &str) -> Expr {
    Expr::BindingUsage(BindingUsage { name: name.to_string() })
}

fn operation(lhs: Expr, rhs: Expr, op: Op) -> Expr {
    Expr::Operation { lhs: Box::new(lhs), rhs: Box::new(rhs), op }
}

fn binding_def(name: &str, val: Expr) -> Statement {
    Statement::BindingDef(BindingDef { name: name.to_string(), val })
}

#[test]
fn eval_existing_binding_usage() {
    let mut env = Env::default();
    env.store_binding("foo".to_string(), Val::Number(10));

    assert_eq!(
        BindingUsage { name: "foo".to_string() }.eval(&env),
        Ok(Val::Number(10)),
    );
}

#[test]
fn eval_non_existent_binding_usage() {
    let empty_env = Env::default();

    let result = BindingUsage { name: "i_dont_exist".to_string() }.eval(&empty_env);
    assert_eq!(result, Err(EvalError::UndefinedBinding("i_dont_exist".to_string())));
    assert_eq!(
        result.unwrap_err().message(),
        "binding with name ‘i_dont_exist’ does not exist".to_string(),
    );
}

#[test]
fn eval_binding_usage() {
    let mut env = Env::default();
    env.store_binding("ten".to_string(), Val::Number(10));

    assert_eq!(
        Expr::BindingUsage(BindingUsage { name: "ten".to_string() }).eval(&env),
        Ok(Val::Number(10)),
    );
}

#[test]
fn eval_empty_block() {
    assert_eq!(Block { stmts: Vec::new() }.eval(&Env::default()), Ok(Val::Unit));
}

#[test]
fn eval_block_with_one_expr() {
    assert_eq!(
        Block { stmts: vec![Statement::Expr(Expr::Number(Number(25)))] }.eval(&Env::default()),
        Ok(Val::Number(25)),
    );
}

#[test]
fn eval_block_with_binding_def_and_usage() {
    assert_eq!(
        Block {
            stmts: vec![
                Statement::BindingDef(BindingDef {
                    name: "one".to_string(),
                    val: Expr::Number(Number(1)),
                }),
                Statement::Expr(Expr::BindingUsage(BindingUsage { name: "one".to_string() })),
            ],
        }
        .eval(&Env::default()),
        Ok(Val::Number(1)),
    );
}

#[test]
fn eval_block_with_multiple_binding_defs() {
    assert_eq!(
        Block {
            stmts: vec![
                Statement::BindingDef(BindingDef {
                    name: "foo".to_string(),
                    val: Expr::Number(Number(5)),
                }),
                Statement::BindingDef(BindingDef {
                    name: "bar".to_string(),
                    val: Expr::Number(Number(4)),
                }),
                Statement::BindingDef(BindingDef {
                    name: "baz".to_string(),
                    val: Expr::Number(Number(3)),
                }),
            ],
        }
        .eval(&Env::default()),
        Ok(Val::Unit),
    );
}

#[test]
fn eval_block_with_multiple_exprs() {
    assert_eq!(
        Block {
            stmts: vec![
                Statement::Expr(Expr::Number(Number(100))),
                Statement::Expr(Expr::Number(Number(30))),
                Statement::Expr(Expr::Operation {
                    lhs: Box::new(Expr::Number(Number(10))),
                    rhs: Box::new(Expr::Number(Number(7))),
                    op: Op::Sub,
                }),
            ],
        }
        .eval(&Env::default()),
        Ok(Val::Number(3)),
    );
}

#[test]
fn eval_block_using_bindings_from_parent_env() {
    let mut env = Env::default();
    env.store_binding("foo".to_string(), Val::Number(2));

    assert_eq!(
        Block {
            stmts: vec![
                Statement::BindingDef(BindingDef {
                    name: "baz".to_string(),
                    val: Expr::BindingUsage(BindingUsage { name: "foo".to_string() }),
                }),
                Statement::Expr(Expr::BindingUsage(BindingUsage { name: "baz".to_string() })),
            ],
        }
        .eval(&env),
        Ok(Val::Number(2)),
    );
}

#[test]
fn eval_expr() {
    assert_eq!(
        Statement::Expr(Expr::Number(Number(5))).eval(&mut Env::default()),
        Ok(Val::Number(5)),
    );
}

#[test]
fn eval_func_def() {
    assert_eq!(
        Statement::FuncDef(FuncDef {
            name: "always_return_one".to_string(),
            params: Vec::new(),
            body: Box::new(Statement::Expr(Expr::Number(Number(1)))),
        })
        .eval(&mut Env::default()),
        Ok(Val::Unit),
    );
}

#[test]
fn arithmetic_is_exact_or_fails() {
    let env = Env::default();
    assert_eq!(operation(number(10), number(7), Op::Sub).eval(&env), Ok(Val::Number(3)));
    assert_eq!(operation(number(10), number(7), Op::Add).eval(&env), Ok(Val::Number(17)));
    assert_eq!(operation(number(10), number(7), Op::Mul).eval(&env), Ok(Val::Number(70)));
    assert_eq!(operation(number(10), number(7), Op::Div).eval(&env), Ok(Val::Number(1)));
    assert_eq!(operation(number(-7), number(2), Op::Div).eval(&env), Ok(Val::Number(-3)));
    assert_eq!(operation(number(7), number(-2), Op::Div).eval(&env), Ok(Val::Number(-3)));
    assert_eq!(operation(number(-7), number(-2), Op::Div).eval(&env), Ok(Val::Number(3)));
    assert_eq!(
        operation(number(i32::MAX), number(1), Op::Add).eval(&env),
        Err(EvalError::Overflow),
    );
    assert_eq!(
        operation(number(i32::MIN), number(1), Op::Sub).eval(&env),
        Err(EvalError::Overflow),
    );
    assert_eq!(
        operation(number(65536), number(65536), Op::Mul).eval(&env),
        Err(EvalError::Overflow),
    );
    assert_eq!(
        operation(number(i32::MIN), number(-1), Op::Div).eval(&env),
        Err(EvalError::Overflow),
    );
}

#[test]
fn division_by_zero_is_an_error() {
    let env = Env::default();
    assert_eq!(
        operation(number(10), number(0), Op::Div).eval(&env),
        Err(EvalError::DivisionByZero),
    );
    assert_eq!(
        operation(number(10), operation(number(1), number(1), Op::Sub), Op::Div).eval(&env),
        Err(EvalError::DivisionByZero),
    );
    assert_eq!(
        operation(usage("missing"), number(0), Op::Div).eval(&env),
        Err(EvalError::UndefinedBinding("missing".to_string())),
    );
}

#[test]
fn operands_must_be_numbers() {
    let env = Env::default();
    let unit = Expr::Block(Block { stmts: Vec::new() });
    assert_eq!(operation(unit, number(1), Op::Add).eval(&env), Err(EvalError::TypeMismatch));
}

#[test]
fn block_bindings_do_not_escape() {
    let mut env = Env::default();
    env.store_binding("outer".to_string(), Val::Number(1));
    let block = Statement::Expr(Expr::Block(Block {
        stmts: vec![
            binding_def("inner", operation(usage("outer"), number(1), Op::Add)),
            binding_def("outer", number(50)),
            Statement::Expr(operation(usage("inner"), usage("outer"), Op::Add)),
        ],
    }));
    assert_eq!(block.eval(&mut env), Ok(Val::Number(52)));
    assert_eq!(env.get_binding("outer"), Ok(Val::Number(1)));
    assert_eq!(
        env.get_binding("inner"),
        Err(EvalError::UndefinedBinding("inner".to_string())),
    );
}

#[test]
fn failing_block_stops_at_first_error() {
    let env = Env::default();
    let block = Block {
        stmts: vec![
            Statement::Expr(usage("nope")),
            Statement::Expr(operation(number(1), number(0), Op::Div)),
        ],
    };
    assert_eq!(block.eval(&env), Err(EvalError::UndefinedBinding("nope".to_string())));
}

#[test]
fn definitions_are_stored_and_overwritten() {
    let mut env = Env::default();
    assert_eq!(binding_def("a", number(1)).eval(&mut env), Ok(Val::Unit));
    assert_eq!(binding_def("a", number(2)).eval(&mut env), Ok(Val::Unit));
    assert_eq!(env.get_binding("a"), Ok(Val::Number(2)));
    assert_eq!(
        binding_def("b", usage("zzz")).eval(&mut env),
        Err(EvalError::UndefinedBinding("zzz".to_string())),
    );
    assert_eq!(env.get_binding("b"), Err(EvalError::UndefinedBinding("b".to_string())));

    let body = Statement::Expr(usage("x"));
    let def = FuncDef { name: "id".to_string(), params: vec!["x".to_string()], body: Box::new(body) };
    assert_eq!(def.eval(&mut env), Ok(()));
    assert_eq!(
        env.get_func("id"),
        Ok((vec!["x".to_string()], Statement::Expr(usage("x")))),
    );
    assert_eq!(env.get_binding("id"), Err(EvalError::UndefinedBinding("id".to_string())));
    let missing = env.get_func("a");
    assert_eq!(missing, Err(EvalError::UndefinedFunction("a".to_string())));
    assert_eq!(
        missing.unwrap_err().message(),
        "function with name ‘a’ does not exist".to_string(),
    );
}

#[test]
fn child_scope_hides_but_does_not_change_parent() {
    let mut root = Env::default();
    root.store_binding("x".to_string(), Val::Number(1));
    {
        let mut child = root.create_child();
        assert_eq!(child.get_binding("x"), Ok(Val::Number(1)));
        child.store_binding("x".to_string(), Val::Number(2));
        assert_eq!(child.get_binding("x"), Ok(Val::Number(2)));
    }
    assert_eq!(root.get_binding("x"), Ok(Val::Number(1)));
}
