//! The language as mathematics: every rule is a function from the text that
//! is left to either the text after the rule and what was read, or a failure.

use crate::binding_def::BindingDefView;
use crate::error::ParseErrorView;
use crate::expr::{ExprView, Op};
use crate::func_def::FuncDefView;
use crate::statement::StatementView;
use vstd::prelude::*;

verus! {

/// What a rule makes of a text: the remainder and the value read, or a failure.
pub type Parsed<T> = Result<(Seq<char>, T), ParseErrorView>;

/// The value of what an executable parser returned.
pub open spec fn parsed<T: View>(r: Result<(&str, T), crate::error::ParseError>) -> Parsed<T::V> {
    match r {
        Ok((remainder, value)) => Ok((remainder@, value@)),
        Err(e) => Err(e@),
    }
}

/// The value of what an executable parser returned that yields only a
/// remainder.
pub open spec fn parsed_remainder(r: Result<&str, crate::error::ParseError>) -> Result<
    Seq<char>,
    ParseErrorView,
> {
    match r {
        Ok(remainder) => Ok(remainder@),
        Err(e) => Err(e@),
    }
}

/// The values of the items of `items`, in order.
pub open spec fn views<T: View>(items: Seq<T>) -> Seq<T::V> {
    items.map_values(|item: T| item@)
}

/// An ASCII decimal digit.
pub open spec fn is_digit(c: char) -> bool {
    '0' <= c <= '9'
}

/// An ASCII letter.
pub open spec fn is_alphabetic(c: char) -> bool {
    ('a' <= c <= 'z') || ('A' <= c <= 'Z')
}

/// An ASCII letter or an ASCII decimal digit.
pub open spec fn is_alphanumeric(c: char) -> bool {
    is_alphabetic(c) || is_digit(c)
}

/// A space or a newline.
pub open spec fn is_whitespace(c: char) -> bool {
    c == ' ' || c == '\n'
}

/// How many characters at the start of `s` satisfy `accept` without a gap.
pub open spec fn prefix_len(accept: spec_fn(char) -> bool, s: Seq<char>) -> nat
    decreases s.len(),
{
    if s.len() > 0 && accept(s[0]) {
        1 + prefix_len(accept, s.drop_first())
    } else {
        0
    }
}

/// The longest prefix of `s` whose characters all satisfy `accept`, after
/// what follows it.
pub open spec fn longest_prefix(accept: spec_fn(char) -> bool, s: Seq<char>) -> (Seq<char>, Seq<char>) {
    let n = prefix_len(accept, s) as int;
    (s.skip(n), s.take(n))
}

/// `prefix_len` is the one place where a run of accepted characters ends.
pub proof fn lemma_prefix_len(accept: spec_fn(char) -> bool, s: Seq<char>)
    ensures
        prefix_len(accept, s) <= s.len(),
        forall|i: int| 0 <= i < prefix_len(accept, s) ==> accept(#[trigger] s[i]),
        prefix_len(accept, s) < s.len() ==> !accept(s[prefix_len(accept, s) as int]),
    decreases s.len(),
{
    if s.len() > 0 && accept(s[0]) {
        let rest = s.drop_first();
        lemma_prefix_len(accept, rest);
        assert forall|i: int| 0 <= i < prefix_len(accept, s) implies accept(#[trigger] s[i]) by {
            if i > 0 {
                assert(s[i] == rest[i - 1]);
            }
        }
        if prefix_len(accept, s) < s.len() {
            assert(s[prefix_len(accept, s) as int] == rest[prefix_len(accept, rest) as int]);
        }
    }
}

/// A place where a run of accepted characters ends is `prefix_len`.
pub proof fn lemma_prefix_len_unique(accept: spec_fn(char) -> bool, s: Seq<char>, n: int)
    requires
        0 <= n <= s.len(),
        forall|i: int| 0 <= i < n ==> accept(#[trigger] s[i]),
        n < s.len() ==> !accept(s[n]),
    ensures
        prefix_len(accept, s) == n,
    decreases s.len(),
{
    if n > 0 {
        let rest = s.drop_first();
        assert(accept(s[0]));
        assert forall|i: int| 0 <= i < n - 1 implies accept(#[trigger] rest[i]) by {
            assert(rest[i] == s[i + 1]);
        }
        lemma_prefix_len_unique(accept, rest, n - 1);
    }
}

/// What is left of `s` after its leading whitespace.
pub open spec fn skip_whitespace(s: Seq<char>) -> Seq<char> {
    longest_prefix(|c: char| is_whitespace(c), s).0
}

/// Leading whitespace, of which there may be none.
pub open spec fn whitespace(s: Seq<char>) -> (Seq<char>, Seq<char>) {
    longest_prefix(|c: char| is_whitespace(c), s)
}

/// Leading whitespace, of which there must be some.
pub open spec fn required_whitespace(s: Seq<char>) -> Parsed<Seq<char>> {
    if prefix_len(|c: char| is_whitespace(c), s) == 0 {
        Err(ParseErrorView::ExpectedWhitespace)
    } else {
        Ok(longest_prefix(|c: char| is_whitespace(c), s))
    }
}

/// A run of one or more digits.
pub open spec fn digits(s: Seq<char>) -> Parsed<Seq<char>> {
    if prefix_len(|c: char| is_digit(c), s) == 0 {
        Err(ParseErrorView::ExpectedDigits)
    } else {
        Ok(longest_prefix(|c: char| is_digit(c), s))
    }
}

/// A letter and the letters and digits that follow it.
pub open spec fn ident(s: Seq<char>) -> Parsed<Seq<char>> {
    if s.len() > 0 && is_alphabetic(s[0]) {
        Ok(longest_prefix(|c: char| is_alphanumeric(c), s))
    } else {
        Err(ParseErrorView::ExpectedIdentifier)
    }
}

/// The text `literal` at the start of `s`: what follows it, or a failure
/// that names the literal.
pub open spec fn tag(literal: Seq<char>, s: Seq<char>) -> Result<Seq<char>, ParseErrorView> {
    if literal.is_prefix_of(s) {
        Ok(s.skip(literal.len() as int))
    } else {
        Err(ParseErrorView::ExpectedLiteral(literal))
    }
}

/// Items as `item` reads them, with what `separator` reads between one and
/// the next, as many as there are: the sequence ends, without failing, where
/// `item` or `separator` fails, or where the two together take nothing.
pub open spec fn sequence<T>(
    item: spec_fn(Seq<char>) -> Parsed<T>,
    separator: spec_fn(Seq<char>) -> Parsed<Seq<char>>,
    s: Seq<char>,
) -> (Seq<char>, Seq<T>)
    decreases s.len(),
{
    match item(s) {
        Err(_) => (s, Seq::empty()),
        Ok((after_item, value)) => match separator(after_item) {
            Err(_) => (after_item, seq![value]),
            Ok((after_separator, _)) => if after_separator.len() < s.len() {
                let (remainder, values) = sequence(item, separator, after_separator);
                (remainder, seq![value] + values)
            } else {
                (after_separator, seq![value])
            },
        },
    }
}

/// What is left after leading whitespace is no longer than the text.
pub broadcast proof fn lemma_skip_whitespace_shrinks(s: Seq<char>)
    ensures
        #[trigger] skip_whitespace(s).len() <= s.len(),
{
    lemma_prefix_len(|c: char| is_whitespace(c), s);
}

/// What is left after required whitespace is shorter than the text.
pub broadcast proof fn lemma_required_whitespace_shrinks(s: Seq<char>)
    ensures
        #[trigger] required_whitespace(s) matches Ok((rest, _)) ==> rest.len() < s.len(),
{
    lemma_prefix_len(|c: char| is_whitespace(c), s);
}

/// What is left after a run of digits is shorter than the text.
pub broadcast proof fn lemma_digits_shrink(s: Seq<char>)
    ensures
        #[trigger] digits(s) matches Ok((rest, _)) ==> rest.len() < s.len(),
{
    lemma_prefix_len(|c: char| is_digit(c), s);
}

/// What is left after an identifier is shorter than the text.
pub broadcast proof fn lemma_ident_shrinks(s: Seq<char>)
    ensures
        #[trigger] ident(s) matches Ok((rest, _)) ==> rest.len() < s.len(),
{
    lemma_prefix_len(|c: char| is_alphanumeric(c), s);
}

/// What is left after a literal is shorter than the text by the literal.
pub broadcast proof fn lemma_tag_shrinks(literal: Seq<char>, s: Seq<char>)
    ensures
        #[trigger] tag(literal, s) matches Ok(rest) ==> rest.len() + literal.len() == s.len(),
{
}

pub broadcast group group_lexical_rules_shrink {
    lemma_skip_whitespace_shrinks,
    lemma_required_whitespace_shrinks,
    lemma_digits_shrink,
    lemma_ident_shrinks,
    lemma_tag_shrinks,
}

/// Where no item and no separator lengthens a text, what a sequence leaves
/// is no longer than the text.
pub proof fn lemma_sequence_shrinks<T>(
    item: spec_fn(Seq<char>) -> Parsed<T>,
    separator: spec_fn(Seq<char>) -> Parsed<Seq<char>>,
    s: Seq<char>,
)
    requires
        forall|t: Seq<char>|
            t.len() <= s.len() ==> (#[trigger] item(t) matches Ok((rest, _)) ==> rest.len()
                <= t.len()),
        forall|t: Seq<char>|
            t.len() <= s.len() ==> (#[trigger] separator(t) matches Ok((rest, _)) ==> rest.len()
                <= t.len()),
    ensures
        sequence(item, separator, s).0.len() <= s.len(),
    decreases s.len(),
{
    if let Ok((after_item, _)) = item(s) {
        if let Ok((after_separator, _)) = separator(after_item) {
            if after_separator.len() < s.len() {
                lemma_sequence_shrinks(item, separator, after_separator);
            }
        }
    }
}

/// The number that a run of decimal digits denotes.
pub open spec fn decimal_value(digits: Seq<char>) -> nat
    decreases digits.len(),
{
    if digits.len() == 0 {
        0
    } else {
        10 * decimal_value(digits.drop_last()) + (digits.last() as u32 - '0' as u32) as nat
    }
}

/// A number: a run of digits whose value is at most `i32::MAX`.
pub open spec fn number(s: Seq<char>) -> Parsed<i32> {
    match digits(s) {
        Err(e) => Err(e),
        Ok((rest, run)) => if decimal_value(run) <= i32::MAX {
            Ok((rest, decimal_value(run) as i32))
        } else {
            Err(ParseErrorView::NumberTooLarge)
        },
    }
}

/// One of `+`, `-`, `*` and `/`, tried in this order; the failure is that of
/// the last.
pub open spec fn operator(s: Seq<char>) -> Parsed<Op> {
    if let Ok(rest) = tag("+"@, s) {
        Ok((rest, Op::Add))
    } else if let Ok(rest) = tag("-"@, s) {
        Ok((rest, Op::Sub))
    } else if let Ok(rest) = tag("*"@, s) {
        Ok((rest, Op::Mul))
    } else {
        match tag("/"@, s) {
            Ok(rest) => Ok((rest, Op::Div)),
            Err(e) => Err(e),
        }
    }
}

/// The use of a binding: an identifier.
pub open spec fn binding_usage(s: Seq<char>) -> Parsed<Seq<char>> {
    ident(s)
}

/// A statement, read only from a text shorter than `bound`.
pub open spec fn statement_below(bound: nat) -> spec_fn(Seq<char>) -> Parsed<StatementView>
    decreases bound, 0nat,
{
    |t: Seq<char>|
        if t.len() < bound {
            statement(t)
        } else {
            arbitrary()
        }
}

/// A block: `{`, then statements with whitespace between them, then `}`;
/// whitespace may follow `{` and precede `}`.
pub open spec fn block(s: Seq<char>) -> Parsed<Seq<StatementView>>
    decreases s.len(), 1nat,
{
    match tag("{"@, s) {
        Err(e) => Err(e),
        Ok(rest) => {
            let (rest, stmts) = sequence(
                statement_below(s.len()),
                |t: Seq<char>| required_whitespace(t),
                skip_whitespace(rest),
            );
            match tag("}"@, skip_whitespace(rest)) {
                Err(e) => Err(e),
                Ok(rest) => Ok((rest, stmts)),
            }
        },
    }
}

/// An operand: a number, else the use of a binding, else a block; the
/// failure is that of the block.
pub open spec fn atom(s: Seq<char>) -> Parsed<ExprView>
    decreases s.len(), 2nat,
{
    if let Ok((rest, value)) = number(s) {
        Ok((rest, ExprView::Number(value)))
    } else if let Ok((rest, name)) = binding_usage(s) {
        Ok((rest, ExprView::BindingUsage(name)))
    } else {
        match block(s) {
            Ok((rest, stmts)) => Ok((rest, ExprView::Block(stmts))),
            Err(e) => Err(e),
        }
    }
}

/// An operation: an operand, an operator and an operand, with whitespace
/// allowed around the operator.
pub open spec fn operation(s: Seq<char>) -> Parsed<ExprView>
    decreases s.len(), 3nat,
{
    match atom(s) {
        Err(e) => Err(e),
        Ok((rest, lhs)) => match operator(skip_whitespace(rest)) {
            Err(e) => Err(e),
            Ok((rest, op)) => {
                let rest = skip_whitespace(rest);
                if rest.len() < s.len() {
                    match atom(rest) {
                        Err(e) => Err(e),
                        Ok((rest, rhs)) => Ok(
                            (rest, ExprView::Operation { lhs: Box::new(lhs), rhs: Box::new(rhs), op }),
                        ),
                    }
                } else {
                    arbitrary()
                }
            },
        },
    }
}

/// An expression: an operation, else a single operand.
pub open spec fn expr(s: Seq<char>) -> Parsed<ExprView>
    decreases s.len(), 4nat,
{
    match operation(s) {
        Ok(read) => Ok(read),
        Err(_) => atom(s),
    }
}

/// The definition of a binding: `let`, whitespace, a name, `=` and an
/// expression, with whitespace allowed around `=`.
pub open spec fn binding_def(s: Seq<char>) -> Parsed<BindingDefView>
    decreases s.len(), 5nat,
{
    proof {
        broadcast use group_lexical_rules_shrink;

    }
    match tag("let"@, s) {
        Err(e) => Err(e),
        Ok(rest) => match required_whitespace(rest) {
            Err(e) => Err(e),
            Ok((rest, _)) => match ident(rest) {
                Err(e) => Err(e),
                Ok((rest, name)) => match tag("="@, skip_whitespace(rest)) {
                    Err(e) => Err(e),
                    Ok(rest) => match expr(skip_whitespace(rest)) {
                        Err(e) => Err(e),
                        Ok((rest, val)) => Ok((rest, BindingDefView { name, val })),
                    },
                },
            },
        },
    }
}

/// The definition of a function: `fn`, whitespace, a name, the names of the
/// parameters with whitespace between them, `=>` and a statement, with
/// whitespace allowed after the name and around `=>`.
pub open spec fn func_def(s: Seq<char>) -> Parsed<FuncDefView>
    decreases s.len(), 5nat,
{
    match tag("fn"@, s) {
        Err(e) => Err(e),
        Ok(rest) => match required_whitespace(rest) {
            Err(e) => Err(e),
            Ok((rest, _)) => match ident(rest) {
                Err(e) => Err(e),
                Ok((rest, name)) => {
                    let (after_params, params) = sequence(
                        |t: Seq<char>| ident(t),
                        |t: Seq<char>| required_whitespace(t),
                        skip_whitespace(rest),
                    );
                    proof {
                        broadcast use group_lexical_rules_shrink;

                        lemma_sequence_shrinks(
                            |t: Seq<char>| ident(t),
                            |t: Seq<char>| required_whitespace(t),
                            skip_whitespace(rest),
                        );
                    }
                    match tag("=>"@, skip_whitespace(after_params)) {
                        Err(e) => Err(e),
                        Ok(rest) => match statement(skip_whitespace(rest)) {
                            Err(e) => Err(e),
                            Ok((rest, body)) => Ok(
                                (rest, FuncDefView { name, params, body: Box::new(body) }),
                            ),
                        },
                    }
                },
            },
        },
    }
}

/// A statement: the definition of a binding, else the definition of a
/// function, else an expression; the failure is that of the expression.
pub open spec fn statement(s: Seq<char>) -> Parsed<StatementView>
    decreases s.len(), 6nat,
{
    if let Ok((rest, def)) = binding_def(s) {
        Ok((rest, StatementView::BindingDef(def)))
    } else if let Ok((rest, def)) = func_def(s) {
        Ok((rest, StatementView::FuncDef(def)))
    } else {
        match expr(s) {
            Ok((rest, e)) => Ok((rest, StatementView::Expr(e))),
            Err(e) => Err(e),
        }
    }
}

/// What a block leaves is shorter than the text.
pub proof fn lemma_block_shrinks(s: Seq<char>)
    ensures
        block(s) matches Ok((rest, _)) ==> rest.len() < s.len(),
    decreases s.len(), 1nat,
{
    broadcast use group_lexical_rules_shrink;

    if let Ok(after_brace) = tag("{"@, s) {
        reveal_strlit("{");
        let start = skip_whitespace(after_brace);
        let item = statement_below(s.len());
        let separator = |t: Seq<char>| required_whitespace(t);
        assert forall|t: Seq<char>| t.len() <= start.len() implies (#[trigger] item(t) matches Ok(
            (rest, _),
        ) ==> rest.len() <= t.len()) by {
            lemma_statement_shrinks(t);
        }
        lemma_sequence_shrinks(item, separator, start);
    }
}

/// What an operand leaves is shorter than the text.
pub proof fn lemma_atom_shrinks(s: Seq<char>)
    ensures
        atom(s) matches Ok((rest, _)) ==> rest.len() < s.len(),
    decreases s.len(), 2nat,
{
    broadcast use group_lexical_rules_shrink;

    lemma_block_shrinks(s);
}

/// What an operation leaves is shorter than the text.
pub proof fn lemma_operation_shrinks(s: Seq<char>)
    ensures
        operation(s) matches Ok((rest, _)) ==> rest.len() < s.len(),
    decreases s.len(), 3nat,
{
    broadcast use group_lexical_rules_shrink;

    lemma_atom_shrinks(s);
    if let Ok((after_lhs, _)) = atom(s) {
        if let Ok((after_operator, _)) = operator(skip_whitespace(after_lhs)) {
            lemma_atom_shrinks(skip_whitespace(after_operator));
        }
    }
}

/// What an expression leaves is shorter than the text.
pub proof fn lemma_expr_shrinks(s: Seq<char>)
    ensures
        expr(s) matches Ok((rest, _)) ==> rest.len() < s.len(),
    decreases s.len(), 4nat,
{
    lemma_operation_shrinks(s);
    lemma_atom_shrinks(s);
}

/// What the definition of a binding leaves is shorter than the text.
pub proof fn lemma_binding_def_shrinks(s: Seq<char>)
    ensures
        binding_def(s) matches Ok((rest, _)) ==> rest.len() < s.len(),
    decreases s.len(), 5nat,
{
    broadcast use group_lexical_rules_shrink;

    if let Ok(after_let) = tag("let"@, s) {
        if let Ok((after_space, _)) = required_whitespace(after_let) {
            if let Ok((after_name, _)) = ident(after_space) {
                if let Ok(after_equals) = tag("="@, skip_whitespace(after_name)) {
                    lemma_expr_shrinks(skip_whitespace(after_equals));
                }
            }
        }
    }
}

/// What the definition of a function leaves is shorter than the text.
pub proof fn lemma_func_def_shrinks(s: Seq<char>)
    ensures
        func_def(s) matches Ok((rest, _)) ==> rest.len() < s.len(),
    decreases s.len(), 5nat,
{
    broadcast use group_lexical_rules_shrink;

    if let Ok(after_fn) = tag("fn"@, s) {
        if let Ok((after_space, _)) = required_whitespace(after_fn) {
            if let Ok((after_name, _)) = ident(after_space) {
                let item = |t: Seq<char>| ident(t);
                let separator = |t: Seq<char>| required_whitespace(t);
                let start = skip_whitespace(after_name);
                lemma_sequence_shrinks(item, separator, start);
                let after_params = sequence(item, separator, start).0;
                if let Ok(after_arrow) = tag("=>"@, skip_whitespace(after_params)) {
                    lemma_statement_shrinks(skip_whitespace(after_arrow));
                }
            }
        }
    }
}

/// What a statement leaves is shorter than the text.
pub proof fn lemma_statement_shrinks(s: Seq<char>)
    ensures
        statement(s) matches Ok((rest, _)) ==> rest.len() < s.len(),
    decreases s.len(), 6nat,
{
    lemma_binding_def_shrinks(s);
    lemma_func_def_shrinks(s);
    lemma_expr_shrinks(s);
}

/// Sequences whose items are read alike on every text that is no longer
/// than `s` are alike on `s`.
pub proof fn lemma_sequence_same_items<T>(
    a: spec_fn(Seq<char>) -> Parsed<T>,
    b: spec_fn(Seq<char>) -> Parsed<T>,
    separator: spec_fn(Seq<char>) -> Parsed<Seq<char>>,
    s: Seq<char>,
)
    requires
        forall|t: Seq<char>| t.len() <= s.len() ==> #[trigger] a(t) == b(t),
    ensures
        sequence(a, separator, s) == sequence(b, separator, s),
    decreases s.len(),
{
    assert(a(s) == b(s));
    if let Ok((after_item, _)) = a(s) {
        if let Ok((after_separator, _)) = separator(after_item) {
            if after_separator.len() < s.len() {
                lemma_sequence_same_items(a, b, separator, after_separator);
            }
        }
    }
}

/// The statements of a block are read by the rule of a statement itself:
/// the bound on the length of their text always holds.
pub proof fn lemma_block_reads_statements(s: Seq<char>)
    ensures
        block(s) == (match tag("{"@, s) {
            Err(e) => Err(e),
            Ok(rest) => {
                let (rest, stmts) = sequence(
                    |t: Seq<char>| statement(t),
                    |t: Seq<char>| required_whitespace(t),
                    skip_whitespace(rest),
                );
                match tag("}"@, skip_whitespace(rest)) {
                    Err(e) => Err(e),
                    Ok(rest) => Ok((rest, stmts)),
                }
            },
        }),
{
    broadcast use group_lexical_rules_shrink;

    if let Ok(after_brace) = tag("{"@, s) {
        reveal_strlit("{");
        lemma_sequence_same_items(
            statement_below(s.len()),
            |t: Seq<char>| statement(t),
            |t: Seq<char>| required_whitespace(t),
            skip_whitespace(after_brace),
        );
    }
}

/// The right operand of an operation is read by the rule of an operand
/// itself: the bound on the length of its text always holds.
pub proof fn lemma_operation_reads_operands(s: Seq<char>)
    ensures
        operation(s) == (match atom(s) {
            Err(e) => Err(e),
            Ok((rest, lhs)) => match operator(skip_whitespace(rest)) {
                Err(e) => Err(e),
                Ok((rest, op)) => match atom(skip_whitespace(rest)) {
                    Err(e) => Err(e),
                    Ok((rest, rhs)) => Ok(
                        (rest, ExprView::Operation { lhs: Box::new(lhs), rhs: Box::new(rhs), op }),
                    ),
                },
            },
        }),
{
    broadcast use group_lexical_rules_shrink;

    lemma_atom_shrinks(s);
    reveal_strlit("+");
    reveal_strlit("-");
    reveal_strlit("*");
    reveal_strlit("/");
}

/// A run of digits and what follows it make up the text; the run is not
/// empty, holds only digits, and no digit follows it.
pub proof fn lemma_digits_split(s: Seq<char>)
    ensures
        digits(s) matches Ok((rest, run)) ==> {
            &&& run + rest == s
            &&& run.len() > 0
            &&& forall|i: int| 0 <= i < run.len() ==> is_digit(#[trigger] run[i])
            &&& rest.len() > 0 ==> !is_digit(rest[0])
        },
        digits(s) is Err <==> s.len() == 0 || !is_digit(s[0]),
{
    lemma_prefix_len(|c: char| is_digit(c), s);
    let n = prefix_len(|c: char| is_digit(c), s) as int;
    assert(s.take(n) + s.skip(n) =~= s);
}

/// An identifier and what follows it make up the text; the identifier
/// starts with a letter, holds only letters and digits, and neither a letter
/// nor a digit follows it. A text that does not start with a letter has no
/// identifier.
pub proof fn lemma_ident_split(s: Seq<char>)
    ensures
        ident(s) matches Ok((rest, name)) ==> {
            &&& name + rest == s
            &&& name.len() > 0
            &&& is_alphabetic(name[0])
            &&& forall|i: int| 0 <= i < name.len() ==> is_alphanumeric(#[trigger] name[i])
            &&& rest.len() > 0 ==> !is_alphanumeric(rest[0])
        },
        ident(s) is Err <==> s.len() == 0 || !is_alphabetic(s[0]),
        ident(s) matches Err(e) ==> e == ParseErrorView::ExpectedIdentifier,
{
    lemma_prefix_len(|c: char| is_alphanumeric(c), s);
    let n = prefix_len(|c: char| is_alphanumeric(c), s) as int;
    assert(s.take(n) + s.skip(n) =~= s);
}

/// Whitespace and what follows it make up the text; no whitespace follows
/// it.
pub proof fn lemma_whitespace_split(s: Seq<char>)
    ensures
        whitespace(s).1 + whitespace(s).0 == s,
        forall|i: int|
            0 <= i < whitespace(s).1.len() ==> is_whitespace(#[trigger] whitespace(s).1[i]),
        whitespace(s).0.len() > 0 ==> !is_whitespace(whitespace(s).0[0]),
        required_whitespace(s) is Err <==> s.len() == 0 || !is_whitespace(s[0]),
        required_whitespace(s) matches Ok(split) ==> split == whitespace(s),
{
    lemma_prefix_len(|c: char| is_whitespace(c), s);
    let n = prefix_len(|c: char| is_whitespace(c), s) as int;
    assert(s.take(n) + s.skip(n) =~= s);
}

/// A literal is taken from a text that starts with it, and from no other.
pub proof fn lemma_tag_split(literal: Seq<char>, s: Seq<char>)
    ensures
        tag(literal, s) matches Ok(rest) ==> literal + rest == s,
        forall|rest: Seq<char>| #[trigger] tag(literal, literal + rest) == Ok::<_, ParseErrorView>(rest),
{
    if let Ok(rest) = tag(literal, s) {
        assert(literal + rest =~= s);
    }
    assert forall|rest: Seq<char>| #[trigger] tag(literal, literal + rest) == Ok::<_, ParseErrorView>(rest) by {
        let whole = literal + rest;
        assert(whole.subrange(0, literal.len() as int) =~= literal);
        assert(whole.skip(literal.len() as int) =~= rest);
    }
}

/// The rules of a statement are tried in order: the definition of a
/// binding, then the definition of a function, then an expression.
pub proof fn lemma_statement_priority(s: Seq<char>)
    ensures
        binding_def(s) matches Ok((rest, def)) ==> statement(s) == Ok::<_, ParseErrorView>(
            (rest, StatementView::BindingDef(def)),
        ),
        binding_def(s) is Err ==> (func_def(s) matches Ok((rest, def)) ==> statement(s) == Ok::<
            _,
            ParseErrorView,
        >((rest, StatementView::FuncDef(def)))),
        binding_def(s) is Err && func_def(s) is Err ==> (match expr(s) {
            Ok((rest, e)) => statement(s) == Ok::<_, ParseErrorView>((rest, StatementView::Expr(e))),
            Err(e) => statement(s) == Err::<(Seq<char>, StatementView), _>(e),
        }),
{
}

/// A keyword must be followed by whitespace: a text that starts with `let`
/// or with `fn`, with no whitespace right after it, is no definition, and
/// the failure is `ExpectedWhitespace`.
pub proof fn lemma_keyword_needs_whitespace(s: Seq<char>)
    ensures
        "let"@.is_prefix_of(s) && (s.len() == 3 || !is_whitespace(s[3])) ==> binding_def(s)
            == Err::<(Seq<char>, BindingDefView), _>(ParseErrorView::ExpectedWhitespace),
        "fn"@.is_prefix_of(s) && (s.len() == 2 || !is_whitespace(s[2])) ==> func_def(s) == Err::<
            (Seq<char>, FuncDefView),
            _,
        >(ParseErrorView::ExpectedWhitespace),
{
    reveal_strlit("let");
    reveal_strlit("fn");
    if "let"@.is_prefix_of(s) {
        lemma_whitespace_split(s.skip(3));
    }
    if "fn"@.is_prefix_of(s) {
        lemma_whitespace_split(s.skip(2));
    }
}

/// A whole input: one statement with nothing after it.
pub open spec fn program(s: Seq<char>) -> Result<StatementView, ParseErrorView> {
    match statement(s) {
        Err(e) => Err(e),
        Ok((rest, stmt)) => if rest.len() == 0 {
            Ok(stmt)
        } else {
            Err(ParseErrorView::IncompleteParse)
        },
    }
}

} // verus!
