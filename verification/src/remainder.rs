//! No rule changes the text: what a rule leaves is what the text ends with.

use crate::grammar::{
    atom, binding_def, block, digits, expr, func_def, ident, lemma_prefix_len, number,
    operation, operator, required_whitespace, sequence, skip_whitespace, statement,
    statement_below, tag, is_alphanumeric, is_digit, is_whitespace, prefix_len, Parsed,
};
use vstd::prelude::*;

verus! {

/// What ends a text that ends a text ends that text.
pub proof fn lemma_suffix_of_suffix(a: Seq<char>, b: Seq<char>, c: Seq<char>)
    requires
        a.is_suffix_of(b),
        b.is_suffix_of(c),
    ensures
        a.is_suffix_of(c),
{
    assert(a =~= c.subrange(c.len() - a.len(), c.len() as int));
}

/// What is left after the first `n` characters of a text ends the text.
pub proof fn lemma_skip_is_suffix(s: Seq<char>, n: int)
    requires
        0 <= n <= s.len(),
    ensures
        s.skip(n).is_suffix_of(s),
{
}

/// What the rules of single words leave ends the text.
pub proof fn lemma_words_leave_suffix(s: Seq<char>)
    ensures
        skip_whitespace(s).is_suffix_of(s),
        required_whitespace(s) matches Ok((rest, _)) ==> rest.is_suffix_of(s),
        digits(s) matches Ok((rest, _)) ==> rest.is_suffix_of(s),
        number(s) matches Ok((rest, _)) ==> rest.is_suffix_of(s),
        ident(s) matches Ok((rest, _)) ==> rest.is_suffix_of(s),
        operator(s) matches Ok((rest, _)) ==> rest.is_suffix_of(s),
        forall|literal: Seq<char>| #[trigger] tag(literal, s) matches Ok(rest) ==> rest.is_suffix_of(s),
{
    lemma_prefix_len(|c: char| is_whitespace(c), s);
    lemma_prefix_len(|c: char| is_digit(c), s);
    lemma_prefix_len(|c: char| is_alphanumeric(c), s);
    lemma_skip_is_suffix(s, prefix_len(|c: char| is_whitespace(c), s) as int);
    lemma_skip_is_suffix(s, prefix_len(|c: char| is_digit(c), s) as int);
    lemma_skip_is_suffix(s, prefix_len(|c: char| is_alphanumeric(c), s) as int);
}

/// What is left of a suffix after its leading whitespace is a suffix too.
proof fn lemma_past_whitespace(s: Seq<char>, whole: Seq<char>)
    requires
        s.is_suffix_of(whole),
    ensures
        skip_whitespace(s).is_suffix_of(whole),
{
    lemma_words_leave_suffix(s);
    lemma_suffix_of_suffix(skip_whitespace(s), s, whole);
}

/// What is left of a suffix after required whitespace is a suffix too.
proof fn lemma_past_required_whitespace(s: Seq<char>, whole: Seq<char>)
    requires
        s.is_suffix_of(whole),
    ensures
        required_whitespace(s) matches Ok((rest, _)) ==> rest.is_suffix_of(whole),
{
    lemma_words_leave_suffix(s);
    if let Ok((rest, _)) = required_whitespace(s) {
        lemma_suffix_of_suffix(rest, s, whole);
    }
}

/// What is left of a suffix after an identifier is a suffix too.
proof fn lemma_past_ident(s: Seq<char>, whole: Seq<char>)
    requires
        s.is_suffix_of(whole),
    ensures
        ident(s) matches Ok((rest, _)) ==> rest.is_suffix_of(whole),
{
    lemma_words_leave_suffix(s);
    if let Ok((rest, _)) = ident(s) {
        lemma_suffix_of_suffix(rest, s, whole);
    }
}

/// What is left of a suffix after a literal is a suffix too.
proof fn lemma_past_tag(literal: Seq<char>, s: Seq<char>, whole: Seq<char>)
    requires
        s.is_suffix_of(whole),
    ensures
        tag(literal, s) matches Ok(rest) ==> rest.is_suffix_of(whole),
{
    if let Ok(rest) = tag(literal, s) {
        lemma_skip_is_suffix(s, literal.len() as int);
        lemma_suffix_of_suffix(rest, s, whole);
    }
}

/// What is left of a suffix after an operator is a suffix too.
proof fn lemma_past_operator(s: Seq<char>, whole: Seq<char>)
    requires
        s.is_suffix_of(whole),
    ensures
        operator(s) matches Ok((rest, _)) ==> rest.is_suffix_of(whole) && rest.len() < s.len(),
{
    reveal_strlit("+");
    reveal_strlit("-");
    reveal_strlit("*");
    reveal_strlit("/");
    lemma_past_tag("+"@, s, whole);
    lemma_past_tag("-"@, s, whole);
    lemma_past_tag("*"@, s, whole);
    lemma_past_tag("/"@, s, whole);
}

/// What a sequence of identifiers leaves of a suffix is a suffix too.
proof fn lemma_past_names(s: Seq<char>, whole: Seq<char>)
    requires
        s.is_suffix_of(whole),
    ensures
        sequence(|t: Seq<char>| ident(t), |t: Seq<char>| required_whitespace(t), s).0.is_suffix_of(
            whole,
        ),
        sequence(|t: Seq<char>| ident(t), |t: Seq<char>| required_whitespace(t), s).0.len()
            <= s.len(),
{
    let item = |t: Seq<char>| ident(t);
    let separator = |t: Seq<char>| required_whitespace(t);
    assert forall|t: Seq<char>| t.len() <= s.len() implies (#[trigger] item(t) matches Ok(
        (rest, _),
    ) ==> rest.is_suffix_of(t)) by {
        lemma_past_ident(t, t);
    }
    assert forall|t: Seq<char>| t.len() <= s.len() implies (#[trigger] separator(t) matches Ok(
        (rest, _),
    ) ==> rest.is_suffix_of(t)) by {
        lemma_past_required_whitespace(t, t);
    }
    lemma_sequence_leaves_suffix(item, separator, s);
    lemma_suffix_of_suffix(sequence(item, separator, s).0, s, whole);
}

/// Where what an item and a separator leave ends the text that they were
/// given, what a sequence of them leaves ends the text.
pub proof fn lemma_sequence_leaves_suffix<T>(
    item: spec_fn(Seq<char>) -> Parsed<T>,
    separator: spec_fn(Seq<char>) -> Parsed<Seq<char>>,
    s: Seq<char>,
)
    requires
        forall|t: Seq<char>|
            t.len() <= s.len() ==> (#[trigger] item(t) matches Ok((rest, _)) ==> rest.is_suffix_of(
                t,
            )),
        forall|t: Seq<char>|
            t.len() <= s.len() ==> (#[trigger] separator(t) matches Ok((rest, _))
                ==> rest.is_suffix_of(t)),
    ensures
        sequence(item, separator, s).0.is_suffix_of(s),
    decreases s.len(),
{
    if let Ok((after_item, _)) = item(s) {
        if let Ok((after_separator, _)) = separator(after_item) {
            lemma_suffix_of_suffix(after_separator, after_item, s);
            if after_separator.len() < s.len() {
                lemma_sequence_leaves_suffix(item, separator, after_separator);
                lemma_suffix_of_suffix(
                    sequence(item, separator, after_separator).0,
                    after_separator,
                    s,
                );
            }
        }
    } else {
        assert(s.is_suffix_of(s));
    }
}

/// What a block leaves ends the text.
pub proof fn lemma_block_leaves_suffix(s: Seq<char>)
    ensures
        block(s) matches Ok((rest, _)) ==> rest.is_suffix_of(s),
    decreases s.len(), 1nat,
{
    broadcast use crate::grammar::group_lexical_rules_shrink;

    lemma_past_tag("{"@, s, s);
    if let Ok(after_brace) = tag("{"@, s) {
        reveal_strlit("{");
        lemma_past_whitespace(after_brace, s);
        let start = skip_whitespace(after_brace);
        let item = statement_below(s.len());
        let separator = |t: Seq<char>| required_whitespace(t);
        assert forall|t: Seq<char>| t.len() <= start.len() implies (#[trigger] item(t) matches Ok(
            (rest, _),
        ) ==> rest.is_suffix_of(t)) by {
            lemma_statement_leaves_suffix(t);
        }
        assert forall|t: Seq<char>| t.len() <= start.len() implies (
        #[trigger] separator(t) matches Ok((rest, _)) ==> rest.is_suffix_of(t)) by {
            lemma_past_required_whitespace(t, t);
        }
        lemma_sequence_leaves_suffix(item, separator, start);
        let after_stmts = sequence(item, separator, start).0;
        lemma_suffix_of_suffix(after_stmts, start, s);
        lemma_past_whitespace(after_stmts, s);
        lemma_past_tag("}"@, skip_whitespace(after_stmts), s);
    }
}

/// What an operand leaves ends the text.
pub proof fn lemma_atom_leaves_suffix(s: Seq<char>)
    ensures
        atom(s) matches Ok((rest, _)) ==> rest.is_suffix_of(s),
    decreases s.len(), 2nat,
{
    lemma_words_leave_suffix(s);
    lemma_block_leaves_suffix(s);
}

/// What an operation leaves ends the text.
pub proof fn lemma_operation_leaves_suffix(s: Seq<char>)
    ensures
        operation(s) matches Ok((rest, _)) ==> rest.is_suffix_of(s),
    decreases s.len(), 3nat,
{
    broadcast use crate::grammar::group_lexical_rules_shrink;

    lemma_atom_leaves_suffix(s);
    if let Ok((after_lhs, _)) = atom(s) {
        lemma_past_whitespace(after_lhs, s);
        let before_operator = skip_whitespace(after_lhs);
        lemma_past_operator(before_operator, s);
        if let Ok((after_operator, _)) = operator(before_operator) {
            lemma_past_whitespace(after_operator, s);
            lemma_past_whitespace(after_operator, after_operator);
            let before_rhs = skip_whitespace(after_operator);
            assert(before_rhs.len() < s.len());
            lemma_atom_leaves_suffix(before_rhs);
            if let Ok((rest, _)) = atom(before_rhs) {
                lemma_suffix_of_suffix(rest, before_rhs, s);
            }
        }
    }
}

/// What an expression leaves ends the text.
pub proof fn lemma_expr_leaves_suffix(s: Seq<char>)
    ensures
        expr(s) matches Ok((rest, _)) ==> rest.is_suffix_of(s),
    decreases s.len(), 4nat,
{
    lemma_operation_leaves_suffix(s);
    lemma_atom_leaves_suffix(s);
}

/// What the definition of a binding leaves ends the text.
pub proof fn lemma_binding_def_leaves_suffix(s: Seq<char>)
    ensures
        binding_def(s) matches Ok((rest, _)) ==> rest.is_suffix_of(s),
    decreases s.len(), 5nat,
{
    broadcast use crate::grammar::group_lexical_rules_shrink;

    lemma_past_tag("let"@, s, s);
    if let Ok(after_let) = tag("let"@, s) {
        lemma_past_required_whitespace(after_let, s);
        if let Ok((after_space, _)) = required_whitespace(after_let) {
            lemma_past_ident(after_space, s);
            if let Ok((after_name, _)) = ident(after_space) {
                lemma_past_whitespace(after_name, s);
                lemma_past_tag("="@, skip_whitespace(after_name), s);
                if let Ok(after_equals) = tag("="@, skip_whitespace(after_name)) {
                    lemma_past_whitespace(after_equals, s);
                    let before_expr = skip_whitespace(after_equals);
                    lemma_expr_leaves_suffix(before_expr);
                    if let Ok((rest, _)) = expr(before_expr) {
                        lemma_suffix_of_suffix(rest, before_expr, s);
                    }
                }
            }
        }
    }
}

/// What the definition of a function leaves ends the text.
pub proof fn lemma_func_def_leaves_suffix(s: Seq<char>)
    ensures
        func_def(s) matches Ok((rest, _)) ==> rest.is_suffix_of(s),
    decreases s.len(), 5nat,
{
    broadcast use crate::grammar::group_lexical_rules_shrink;

    lemma_past_tag("fn"@, s, s);
    if let Ok(after_fn) = tag("fn"@, s) {
        lemma_past_required_whitespace(after_fn, s);
        lemma_past_required_whitespace(after_fn, after_fn);
        if let Ok((after_space, _)) = required_whitespace(after_fn) {
            lemma_past_ident(after_space, s);
            if let Ok((after_name, _)) = ident(after_space) {
                lemma_past_whitespace(after_name, s);
                let start = skip_whitespace(after_name);
                lemma_past_names(start, s);
                let after_params = sequence(
                    |t: Seq<char>| ident(t),
                    |t: Seq<char>| required_whitespace(t),
                    start,
                ).0;
                lemma_past_whitespace(after_params, s);
                lemma_past_tag("=>"@, skip_whitespace(after_params), s);
                if let Ok(after_arrow) = tag("=>"@, skip_whitespace(after_params)) {
                    lemma_past_whitespace(after_arrow, s);
                    let before_body = skip_whitespace(after_arrow);
                    assert(before_body.len() < s.len());
                    lemma_statement_leaves_suffix(before_body);
                    if let Ok((rest, _)) = statement(before_body) {
                        lemma_suffix_of_suffix(rest, before_body, s);
                    }
                }
            }
        }
    }
}

/// What a statement leaves ends the text: every rule takes a prefix of the
/// text and leaves the rest as it was.
pub proof fn lemma_statement_leaves_suffix(s: Seq<char>)
    ensures
        statement(s) matches Ok((rest, _)) ==> rest.is_suffix_of(s),
    decreases s.len(), 6nat,
{
    lemma_binding_def_leaves_suffix(s);
    lemma_func_def_leaves_suffix(s);
    lemma_expr_leaves_suffix(s);
}

} // verus!
