//! What statements and expressions evaluate to, as mathematics.

use crate::binding_def::BindingDefView;
use crate::env::{binding, Bindings, NamedInfoView};
use crate::error::EvalErrorView;
use crate::expr::{ExprView, Op};
use crate::statement::StatementView;
use crate::val::Val;
use vstd::prelude::*;

verus! {

/// The quotient of `lhs` by `rhs`, rounded towards zero.
pub open spec fn quotient(lhs: int, rhs: int) -> int
    recommends
        rhs != 0,
{
    if lhs >= 0 && rhs > 0 {
        lhs / rhs
    } else if lhs >= 0 {
        -(lhs / (-rhs))
    } else if rhs > 0 {
        -((-lhs) / rhs)
    } else {
        (-lhs) / (-rhs)
    }
}

/// The exact result of `op` on `lhs` and `rhs`, for `rhs` other than zero
/// where `op` is a division.
pub open spec fn exact(op: Op, lhs: int, rhs: int) -> int {
    match op {
        Op::Add => lhs + rhs,
        Op::Sub => lhs - rhs,
        Op::Mul => lhs * rhs,
        Op::Div => quotient(lhs, rhs),
    }
}

/// `op` on two numbers: `DivisionByZero` for a division by zero, `Overflow`
/// where the exact result is no `i32`, and else the exact result.
pub open spec fn apply(op: Op, lhs: i32, rhs: i32) -> Result<Val, EvalErrorView> {
    if op == Op::Div && rhs == 0 {
        Err(EvalErrorView::DivisionByZero)
    } else if i32::MIN <= exact(op, lhs as int, rhs as int) <= i32::MAX {
        Ok(Val::Number(exact(op, lhs as int, rhs as int) as i32))
    } else {
        Err(EvalErrorView::Overflow)
    }
}

/// `op` on two values: `TypeMismatch` unless both are numbers.
pub open spec fn operate(op: Op, lhs: Val, rhs: Val) -> Result<Val, EvalErrorView> {
    match (lhs, rhs) {
        (Val::Number(lhs), Val::Number(rhs)) => apply(op, lhs, rhs),
        _ => Err(EvalErrorView::TypeMismatch),
    }
}

/// The value of an expression where the visible names stand for what `env`
/// says. The operands of an operation are evaluated left before right, and
/// the first failure is the failure of the whole.
pub open spec fn eval_expr(expr: ExprView, env: Bindings) -> Result<Val, EvalErrorView>
    decreases expr, 0nat,
{
    match expr {
        ExprView::Number(value) => Ok(Val::Number(value)),
        ExprView::Operation { lhs, rhs, op } => match eval_expr(*lhs, env) {
            Err(e) => Err(e),
            Ok(lhs) => match eval_expr(*rhs, env) {
                Err(e) => Err(e),
                Ok(rhs) => operate(op, lhs, rhs),
            },
        },
        ExprView::BindingUsage(name) => binding(env, name),
        ExprView::Block(stmts) => eval_block(stmts, env),
    }
}

/// The value of a block: `Unit` for an empty block, and else the value of
/// its last statement, after the statements before it, in a scope that
/// starts as `env` and ends with the block.
pub open spec fn eval_block(stmts: Seq<StatementView>, env: Bindings) -> Result<Val, EvalErrorView>
    decreases stmts, stmts.len() + 1,
{
    if stmts.len() == 0 {
        Ok(Val::Unit)
    } else {
        eval_from(stmts, 0, env)
    }
}

/// The value of the last of `stmts`, after the statements from index `from`
/// on were evaluated in order, each in the scope that the one before it
/// left; the first failure is the failure of the whole.
pub open spec fn eval_from(stmts: Seq<StatementView>, from: nat, env: Bindings) -> Result<
    Val,
    EvalErrorView,
>
    decreases stmts, stmts.len() - from,
{
    if from >= stmts.len() {
        Ok(Val::Unit)
    } else {
        let (value, scope) = eval_statement(stmts[from as int], env);
        if value is Err || from + 1 == stmts.len() {
            value
        } else {
            eval_from(stmts, from + 1, scope)
        }
    }
}

/// The value of a statement, and what the names stand for after it. A
/// definition has the value `Unit` and binds its name in the current scope;
/// where the expression of a binding fails, nothing is bound.
pub open spec fn eval_statement(stmt: StatementView, env: Bindings) -> (
    Result<Val, EvalErrorView>,
    Bindings,
)
    decreases stmt, 0nat,
{
    match stmt {
        StatementView::BindingDef(def) => match eval_expr(def.val, env) {
            Err(e) => (Err(e), env),
            Ok(value) => (Ok(Val::Unit), env.insert(def.name, NamedInfoView::Binding(value))),
        },
        StatementView::FuncDef(def) => (
            Ok(Val::Unit),
            env.insert(def.name, NamedInfoView::Func { params: def.params, body: *def.body }),
        ),
        StatementView::Expr(expr) => (eval_expr(expr, env), env),
    }
}

/// What the names stand for after the first `n` of `stmts` were evaluated in
/// order, starting in `env`.
pub open spec fn scope_after(stmts: Seq<StatementView>, n: nat, env: Bindings) -> Bindings
    decreases n,
{
    if n == 0 || n > stmts.len() {
        env
    } else {
        eval_statement(stmts[n - 1], scope_after(stmts, (n - 1) as nat, env)).1
    }
}

/// Whether each of the first `n` of `stmts` has a value when they are
/// evaluated in order, starting in `env`.
pub open spec fn all_succeed(stmts: Seq<StatementView>, n: nat, env: Bindings) -> bool {
    forall|i: nat|
        i < n && i < stmts.len() ==> (#[trigger] eval_statement(
            stmts[i as int],
            scope_after(stmts, i, env),
        )).0 is Ok
}

/// Whether `stmt` is a definition of `name` itself; what a block inside
/// `stmt` defines does not count.
pub open spec fn defines(stmt: StatementView, name: Seq<char>) -> bool {
    match stmt {
        StatementView::BindingDef(def) => def.name == name,
        StatementView::FuncDef(def) => def.name == name,
        StatementView::Expr(_) => false,
    }
}

/// An empty block has the value `Unit`.
pub proof fn lemma_empty_block_is_unit(env: Bindings)
    ensures
        eval_expr(ExprView::Block(Seq::empty()), env) == Ok::<Val, EvalErrorView>(Val::Unit),
{
    assert(eval_block(Seq::empty(), env) == Ok::<Val, EvalErrorView>(Val::Unit));
}

/// A definition that has a value has the value `Unit`.
pub proof fn lemma_definition_is_unit(stmt: StatementView, env: Bindings)
    requires
        !(stmt is Expr),
        eval_statement(stmt, env).0 is Ok,
    ensures
        eval_statement(stmt, env).0 == Ok::<Val, EvalErrorView>(Val::Unit),
{
}

/// Where the statements from `from` up to the last but one all have values,
/// what follows `from` has the value of the last statement.
proof fn lemma_eval_from_reaches_last(stmts: Seq<StatementView>, from: nat, env: Bindings)
    requires
        from < stmts.len(),
        all_succeed(stmts, (stmts.len() - 1) as nat, env),
    ensures
        eval_from(stmts, from, scope_after(stmts, from, env)) == eval_statement(
            stmts.last(),
            scope_after(stmts, (stmts.len() - 1) as nat, env),
        ).0,
    decreases stmts.len() - from,
{
    if from + 1 < stmts.len() {
        assert(eval_statement(stmts[from as int], scope_after(stmts, from, env)).0 is Ok);
        assert(scope_after(stmts, from + 1, env) == eval_statement(
            stmts[from as int],
            scope_after(stmts, from, env),
        ).1);
        lemma_eval_from_reaches_last(stmts, from + 1, env);
    }
}

/// The value of a block is the value of its last statement, in the scope
/// that the statements before it leave, where these all have values.
pub proof fn lemma_block_value_is_last(stmts: Seq<StatementView>, env: Bindings)
    requires
        stmts.len() > 0,
        all_succeed(stmts, (stmts.len() - 1) as nat, env),
    ensures
        eval_expr(ExprView::Block(stmts), env) == eval_statement(
            stmts.last(),
            scope_after(stmts, (stmts.len() - 1) as nat, env),
        ).0,
{
    lemma_eval_from_reaches_last(stmts, 0, env);
    assert(eval_block(stmts, env) == eval_from(stmts, 0, env));
}

/// The first statement of a block that has no value gives the block its
/// failure.
pub proof fn lemma_block_fails_at_first_failure(
    stmts: Seq<StatementView>,
    at: nat,
    env: Bindings,
)
    requires
        at < stmts.len(),
        all_succeed(stmts, at, env),
        eval_statement(stmts[at as int], scope_after(stmts, at, env)).0 is Err,
    ensures
        eval_expr(ExprView::Block(stmts), env) == eval_statement(
            stmts[at as int],
            scope_after(stmts, at, env),
        ).0,
{
    lemma_eval_from_stops(stmts, 0, at, env);
    assert(eval_block(stmts, env) == eval_from(stmts, 0, env));
}

/// Where the statements from `from` up to `at` have values and the one at
/// `at` has none, what follows `from` fails as the one at `at` does.
proof fn lemma_eval_from_stops(stmts: Seq<StatementView>, from: nat, at: nat, env: Bindings)
    requires
        from <= at < stmts.len(),
        all_succeed(stmts, at, env),
        eval_statement(stmts[at as int], scope_after(stmts, at, env)).0 is Err,
    ensures
        eval_from(stmts, from, scope_after(stmts, from, env)) == eval_statement(
            stmts[at as int],
            scope_after(stmts, at, env),
        ).0,
    decreases at - from,
{
    if from < at {
        assert(eval_statement(stmts[from as int], scope_after(stmts, from, env)).0 is Ok);
        assert(scope_after(stmts, from + 1, env) == eval_statement(
            stmts[from as int],
            scope_after(stmts, from, env),
        ).1);
        lemma_eval_from_stops(stmts, from + 1, at, env);
    }
}

/// An expression, and so a block, leaves the names as they were: what a
/// block defines is not visible after it.
pub proof fn lemma_expression_leaves_scope(expr: ExprView, env: Bindings)
    ensures
        eval_statement(StatementView::Expr(expr), env).1 == env,
{
}

/// A block starts with the names of the scope around it: the use of a
/// binding as the only statement of a block has the value that the binding
/// has outside.
pub proof fn lemma_block_sees_enclosing_scope(name: Seq<char>, env: Bindings)
    ensures
        eval_expr(
            ExprView::Block(seq![StatementView::Expr(ExprView::BindingUsage(name))]),
            env,
        ) == binding(env, name),
{
    let stmts = seq![StatementView::Expr(ExprView::BindingUsage(name))];
    assert(eval_block(stmts, env) == eval_from(stmts, 0, env));
    assert(eval_from(stmts, 0, env) == eval_statement(stmts[0], env).0);
    assert(eval_statement(stmts[0], env).0 == eval_expr(ExprView::BindingUsage(name), env));
}

/// Statements that do not define `name` leave what `name` stands for.
pub proof fn lemma_scope_keeps_other_names(
    stmts: Seq<StatementView>,
    n: nat,
    name: Seq<char>,
    env: Bindings,
)
    requires
        n <= stmts.len(),
        forall|i: int| 0 <= i < n ==> !defines(#[trigger] stmts[i], name),
    ensures
        crate::env::lookup(scope_after(stmts, n, env), name) == crate::env::lookup(env, name),
    decreases n,
{
    if n > 0 {
        lemma_scope_keeps_other_names(stmts, (n - 1) as nat, name, env);
        assert(!defines(stmts[n - 1], name));
    }
}

/// A binding of the scope around a block can be read at the end of the
/// block, after statements that have values and do not define its name.
pub proof fn lemma_block_reads_enclosing_binding(
    before: Seq<StatementView>,
    name: Seq<char>,
    env: Bindings,
)
    requires
        all_succeed(before, before.len(), env),
        forall|i: int| 0 <= i < before.len() ==> !defines(#[trigger] before[i], name),
    ensures
        eval_expr(
            ExprView::Block(before.push(StatementView::Expr(ExprView::BindingUsage(name)))),
            env,
        ) == binding(env, name),
{
    let stmts = before.push(StatementView::Expr(ExprView::BindingUsage(name)));
    let n = before.len();
    lemma_same_prefix_same_scope(before, stmts, n, env);
    assert forall|i: nat| i < n && i < stmts.len() implies (#[trigger] eval_statement(
        stmts[i as int],
        scope_after(stmts, i, env),
    )).0 is Ok by {
        lemma_same_prefix_same_scope(before, stmts, i, env);
        assert(stmts[i as int] == before[i as int]);
        assert(eval_statement(before[i as int], scope_after(before, i, env)).0 is Ok);
    }
    lemma_block_value_is_last(stmts, env);
    lemma_scope_keeps_other_names(before, n, name, env);
}

/// Two sequences of statements that start alike leave the same names after
/// the part in which they are alike.
pub proof fn lemma_same_prefix_same_scope(
    a: Seq<StatementView>,
    b: Seq<StatementView>,
    n: nat,
    env: Bindings,
)
    requires
        n <= a.len(),
        n <= b.len(),
        forall|i: int| 0 <= i < n ==> a[i] == b[i],
    ensures
        scope_after(a, n, env) == scope_after(b, n, env),
    decreases n,
{
    if n > 0 {
        lemma_same_prefix_same_scope(a, b, (n - 1) as nat, env);
    }
}

/// A division whose right-hand side has the value zero and whose left-hand
/// side has a number as its value fails with `DivisionByZero`.
pub proof fn lemma_division_by_zero(lhs: ExprView, rhs: ExprView, env: Bindings)
    requires
        eval_expr(lhs, env) matches Ok(Val::Number(_)),
        eval_expr(rhs, env) == Ok::<Val, EvalErrorView>(Val::Number(0)),
    ensures
        eval_expr(
            ExprView::Operation { lhs: Box::new(lhs), rhs: Box::new(rhs), op: Op::Div },
            env,
        ) == Err::<Val, EvalErrorView>(EvalErrorView::DivisionByZero),
{
}

/// The use of a name that stands for nothing fails with `UndefinedBinding`,
/// which holds the name.
pub proof fn lemma_undefined_binding(name: Seq<char>, env: Bindings)
    requires
        !env.contains_key(name),
    ensures
        eval_expr(ExprView::BindingUsage(name), env) == Err::<Val, EvalErrorView>(
            EvalErrorView::UndefinedBinding(name),
        ),
{
}

/// A definition binds its name: the use of the name right after it has the
/// value of the expression, whatever the name stood for before.
pub proof fn lemma_definition_binds(def: BindingDefView, env: Bindings)
    requires
        eval_expr(def.val, env) is Ok,
    ensures
        binding(eval_statement(StatementView::BindingDef(def), env).1, def.name) == eval_expr(
            def.val,
            env,
        ),
{
}

} // verus!
