use compiler::error::ParseError;
use compiler::utils::{
    extract_digits, extract_ident, extract_whitespace, extract_whitespace_non_empty, tag,
};

#[test]
fn extract_one_digit() {
    assert_eq!(extract_digits("1+2"), Ok(("+2", "1")));
}

#[test]
fn extract_multiple_digits() {
    assert_eq!(extract_digits("10-20"), Ok(("-20", "10")));
}

#[test]
fn extract_digits_with_no_remainder() {
    assert_eq!(extract_digits("100"), Ok(("", "100")));
}

#[test]
fn do_not_extract_digits_when_input_is_invalid() {
    assert_eq!(extract_digits("abcd"), Err(ParseError::ExpectedDigits));
    assert_eq!(
        extract_digits("abcd").unwrap_err().message(),
        "Expected digits".to_string()
    );
}

#[test]
fn extract_spaces() {
    assert_eq!(extract_whitespace("    1"), ("1", "    "));
}

#[test]
fn extract_alphabetic_ident() {
    assert_eq!(extract_ident("abcdEFG stop"), Ok((" stop", "abcdEFG")));
}

#[test]
fn extract_alphanumeric_ident() {
    assert_eq!(extract_ident("foobar1()"), Ok(("()", "foobar1")));
}

#[test]
fn cannot_extract_ident_beginning_with_number() {
    assert_eq!(extract_ident("123abc"), Err(ParseError::ExpectedIdentifier));
    assert_eq!(
        extract_ident("123abc").unwrap_err().message(),
        "Expected identifier".to_string(),
    );
}

#[test]
fn do_not_extract_spaces1_when_input_does_not_start_with_them() {
    assert_eq!(
        extract_whitespace_non_empty("blah"),
        Err(ParseError::ExpectedWhitespace),
    );
    assert_eq!(
        extract_whitespace_non_empty("blah").unwrap_err().message(),
        "Expected whitespace".to_string(),
    );
}

#[test]
fn tag_word() {
    assert_eq!(tag("let", "let a"), Ok(" a"));
}

#[test]
fn extract_newlines_or_spaces() {
    assert_eq!(extract_whitespace(" \n   \n\nabc"), ("abc", " \n   \n\n"));
}
