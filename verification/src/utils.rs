//! The scanners that every parser is built on: each splits a text into a
//! prefix that it takes and the remainder.

use crate::error::ParseError;
use crate::grammar;
use crate::grammar::{parsed, parsed_remainder, views, Parsed};
use vstd::prelude::*;
use vstd::string::*;

verus! {

/// `extracted` and then `remainder` make up `s`, `accept` took every character
/// of `extracted`, and it refused the first character of `remainder`, if there
/// is one.
pub open spec fn split_by<F: Fn(char) -> bool>(
    accept: F,
    s: Seq<char>,
    remainder: Seq<char>,
    extracted: Seq<char>,
) -> bool {
    &&& extracted + remainder == s
    &&& forall|i: int|
        0 <= i < extracted.len() ==> call_ensures(accept, (#[trigger] extracted[i],), true)
    &&& remainder.len() > 0 ==> call_ensures(accept, (remainder[0],), false)
}

/// A split by an executable test that decides as `class` does is the split at
/// the longest prefix in `class`.
pub proof fn lemma_split_by_class<F: Fn(char) -> bool>(
    accept: F,
    class: spec_fn(char) -> bool,
    s: Seq<char>,
    remainder: Seq<char>,
    extracted: Seq<char>,
)
    requires
        split_by(accept, s, remainder, extracted),
        forall|c: char, b: bool| call_ensures(accept, (c,), b) ==> b == class(c),
    ensures
        (remainder, extracted) == grammar::longest_prefix(class, s),
        extracted.len() == grammar::prefix_len(class, s),
{
    let n = extracted.len() as int;
    assert forall|i: int| 0 <= i < n implies class(#[trigger] s[i]) by {
        assert(s[i] == extracted[i]);
    }
    if n < s.len() {
        assert(s[n] == remainder[0]);
    }
    grammar::lemma_prefix_len_unique(class, s, n);
    assert(s.take(n) =~= extracted);
    assert(s.skip(n) =~= remainder);
}

/// Takes the longest prefix of `s` whose characters `accept` takes. Returns
/// the remainder, then the prefix.
pub fn take_while<'a>(accept: impl Fn(char) -> bool, s: &'a str) -> (r: (&'a str, &'a str))
    requires
        forall|c: char| call_requires(accept, (c,)),
    ensures
        split_by(accept, s@, r.0@, r.1@),
{
    let len = s.unicode_len();
    let mut end: usize = 0;
    while end < len
        invariant
            len == s@.len(),
            end <= len,
            forall|c: char| call_requires(accept, (c,)),
            forall|i: int| 0 <= i < end ==> call_ensures(accept, (#[trigger] s@[i],), true),
        ensures
            end <= len,
            forall|i: int| 0 <= i < end ==> call_ensures(accept, (#[trigger] s@[i],), true),
            end < len ==> call_ensures(accept, (s@[end as int],), false),
        decreases len - end,
    {
        if !accept(s.get_char(end)) {
            break;
        }
        end = end + 1;
    }
    let extracted = s.substring_char(0, end);
    let remainder = s.substring_char(end, len);
    assert(extracted@ + remainder@ =~= s@);
    (remainder, extracted)
}

/// As [`take_while`], but fails with `error` where `accept` takes nothing.
pub fn take_while_careful<'a>(accept: impl Fn(char) -> bool, s: &'a str, error: ParseError) -> (r:
    Result<(&'a str, &'a str), ParseError>)
    requires
        forall|c: char| call_requires(accept, (c,)),
    ensures
        match r {
            Ok((remainder, extracted)) => extracted@.len() > 0 && split_by(
                accept,
                s@,
                remainder@,
                extracted@,
            ),
            Err(e) => e == error && split_by(accept, s@, s@, Seq::empty()),
        },
{
    let (remainder, extracted) = take_while(accept, s);
    if extracted.unicode_len() > 0 {
        Ok((remainder, extracted))
    } else {
        assert(remainder@ =~= s@);
        assert(extracted@ =~= Seq::empty());
        Err(error)
    }
}

/// Whether `c` is an ASCII decimal digit.
pub fn is_digit(c: char) -> (b: bool)
    ensures
        b == grammar::is_digit(c),
{
    '0' <= c && c <= '9'
}

/// Whether `c` is an ASCII letter.
pub fn is_alphabetic(c: char) -> (b: bool)
    ensures
        b == grammar::is_alphabetic(c),
{
    ('a' <= c && c <= 'z') || ('A' <= c && c <= 'Z')
}

/// Whether `c` is an ASCII letter or an ASCII decimal digit.
pub fn is_alphanumeric(c: char) -> (b: bool)
    ensures
        b == grammar::is_alphanumeric(c),
{
    is_alphabetic(c) || is_digit(c)
}

/// Whether `c` is a space or a newline.
pub fn is_whitespace(c: char) -> (b: bool)
    ensures
        b == grammar::is_whitespace(c),
{
    c == ' ' || c == '\n'
}

/// Takes a letter and the letters and digits that follow it. Fails with
/// `ExpectedIdentifier` where `s` does not start with a letter.
pub fn extract_ident(s: &str) -> (r: Result<(&str, &str), ParseError>)
    ensures
        parsed(r) == grammar::ident(s@),
{
    if s.unicode_len() > 0 && is_alphabetic(s.get_char(0)) {
        let (remainder, extracted) = take_while(is_alphanumeric, s);
        proof {
            lemma_split_by_class(
                is_alphanumeric,
                |c: char| grammar::is_alphanumeric(c),
                s@,
                remainder@,
                extracted@,
            );
        }
        Ok((remainder, extracted))
    } else {
        Err(ParseError::ExpectedIdentifier)
    }
}

/// Takes a run of one or more digits. Fails with `ExpectedDigits` where `s`
/// does not start with a digit.
pub fn extract_digits(s: &str) -> (r: Result<(&str, &str), ParseError>)
    ensures
        parsed(r) == grammar::digits(s@),
{
    let r = take_while_careful(is_digit, s, ParseError::ExpectedDigits);
    proof {
        let class = |c: char| grammar::is_digit(c);
        match r {
            Ok((remainder, extracted)) => {
                lemma_split_by_class(is_digit, class, s@, remainder@, extracted@);
            },
            Err(_) => {
                lemma_split_by_class(is_digit, class, s@, s@, Seq::empty());
            },
        }
    }
    r
}

/// Takes the whitespace that `s` starts with, of which there may be none.
pub fn extract_whitespace(s: &str) -> (r: (&str, &str))
    ensures
        (r.0@, r.1@) == grammar::whitespace(s@),
{
    let (remainder, extracted) = take_while(is_whitespace, s);
    proof {
        lemma_split_by_class(
            is_whitespace,
            |c: char| grammar::is_whitespace(c),
            s@,
            remainder@,
            extracted@,
        );
    }
    (remainder, extracted)
}

/// Takes the whitespace that `s` starts with. Fails with `ExpectedWhitespace`
/// where there is none.
pub fn extract_whitespace_non_empty(s: &str) -> (r: Result<(&str, &str), ParseError>)
    ensures
        parsed(r) == grammar::required_whitespace(s@),
{
    let r = take_while_careful(is_whitespace, s, ParseError::ExpectedWhitespace);
    proof {
        let class = |c: char| grammar::is_whitespace(c);
        match r {
            Ok((remainder, extracted)) => {
                lemma_split_by_class(is_whitespace, class, s@, remainder@, extracted@);
            },
            Err(_) => {
                lemma_split_by_class(is_whitespace, class, s@, s@, Seq::empty());
            },
        }
    }
    r
}

/// Takes `starting_text` from the start of `s` and returns what follows it.
/// Fails with `ExpectedLiteral`, which holds `starting_text`, where `s` does
/// not start with it.
pub fn tag<'a>(starting_text: &str, s: &'a str) -> (r: Result<&'a str, ParseError>)
    ensures
        parsed_remainder(r) == grammar::tag(starting_text@, s@),
{
    let wanted = starting_text.unicode_len();
    let len = s.unicode_len();
    let mut matches = wanted <= len;
    let mut i: usize = 0;
    while matches && i < wanted
        invariant
            wanted == starting_text@.len(),
            len == s@.len(),
            i <= wanted,
            matches ==> wanted <= len,
            matches ==> forall|j: int| 0 <= j < i ==> starting_text@[j] == s@[j],
            !matches ==> !starting_text@.is_prefix_of(s@),
        decreases wanted - i,
    {
        if starting_text.get_char(i) != s.get_char(i) {
            matches = false;
        }
        i = i + 1;
    }
    if matches {
        assert(starting_text@ =~= s@.subrange(0, wanted as int));
        Ok(s.substring_char(wanted, len))
    } else {
        Err(ParseError::ExpectedLiteral(starting_text.to_string()))
    }
}

/// Reads items with `parser`, and between one item and the next what
/// `separator_parser` reads; ends, without failing, where either fails.
/// Returns the remainder and the items in order.
///
/// `item` and `separator` say what the two parsers compute. Every item read
/// must take at least one character, and no separator may lengthen the text.
pub fn sequence<'a, T: View, P, S>(
    parser: P,
    separator_parser: S,
    s: &'a str,
    Ghost(item): Ghost<spec_fn(Seq<char>) -> Parsed<T::V>>,
    Ghost(separator): Ghost<spec_fn(Seq<char>) -> Parsed<Seq<char>>>,
) -> (r: (&'a str, Vec<T>)) where
    P: Fn(&'a str) -> Result<(&'a str, T), ParseError>,
    S: Fn(&'a str) -> Result<(&'a str, &'a str), ParseError>,

    requires
        forall|t: &'a str| t@.len() <= s@.len() ==> call_requires(parser, (t,)),
        forall|t: &'a str| t@.len() <= s@.len() ==> call_requires(separator_parser, (t,)),
        forall|t: &'a str, out: Result<(&'a str, T), ParseError>|
            t@.len() <= s@.len() && call_ensures(parser, (t,), out) ==> parsed(out) == item(t@),
        forall|t: &'a str, out: Result<(&'a str, &'a str), ParseError>|
            t@.len() <= s@.len() && call_ensures(separator_parser, (t,), out) ==> parsed(out)
                == separator(t@),
        forall|t: Seq<char>|
            t.len() <= s@.len() ==> (#[trigger] item(t) matches Ok((rest, _)) ==> rest.len()
                < t.len()),
        forall|t: Seq<char>|
            t.len() <= s@.len() ==> (#[trigger] separator(t) matches Ok((rest, _)) ==> rest.len()
                <= t.len()),
    ensures
        (r.0@, views(r.1@)) == grammar::sequence(item, separator, s@),
{
    let mut items: Vec<T> = Vec::new();
    let mut rest = s;
    loop
        invariant_except_break
            grammar::sequence(item, separator, s@) == ({
                let (remainder, values) = grammar::sequence(item, separator, rest@);
                (remainder, views(items@) + values)
            }),
        invariant
            rest@.len() <= s@.len(),
            forall|t: &'a str| t@.len() <= s@.len() ==> call_requires(parser, (t,)),
            forall|t: &'a str| t@.len() <= s@.len() ==> call_requires(separator_parser, (t,)),
            forall|t: &'a str, out: Result<(&'a str, T), ParseError>|
                t@.len() <= s@.len() && call_ensures(parser, (t,), out) ==> parsed(out) == item(
                    t@,
                ),
            forall|t: &'a str, out: Result<(&'a str, &'a str), ParseError>|
                t@.len() <= s@.len() && call_ensures(separator_parser, (t,), out) ==> parsed(out)
                    == separator(t@),
            forall|t: Seq<char>|
                t.len() <= s@.len() ==> (#[trigger] item(t) matches Ok((rest, _)) ==> rest.len()
                    < t.len()),
            forall|t: Seq<char>|
                t.len() <= s@.len() ==> (#[trigger] separator(t) matches Ok((rest, _))
                    ==> rest.len() <= t.len()),
        ensures
            (rest@, views(items@)) == grammar::sequence(item, separator, s@),
        decreases rest@.len(),
    {
        let ghost before = rest@;
        let ghost read = views(items@);
        match parser(rest) {
            Err(_) => {
                assert(read + Seq::<T::V>::empty() =~= read);
                break;
            },
            Ok((after_item, value)) => {
                items.push(value);
                assert(views(items@) =~= read + seq![value@]);
                match separator_parser(after_item) {
                    Err(_) => {
                        rest = after_item;
                        break;
                    },
                    Ok((after_separator, _)) => {
                        rest = after_separator;
                        assert(read + (seq![value@] + grammar::sequence(item, separator, rest@).1)
                            =~= views(items@) + grammar::sequence(item, separator, rest@).1);
                    },
                }
            },
        }
    }
    (rest, items)
}

} // verus!
