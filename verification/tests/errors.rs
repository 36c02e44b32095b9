use puball::ast::{Expected, Policy, SyntaxError};
use puball::pub_all;
use puball::token::Tok;

fn id(s: &str) -> Tok {
    Tok::Ident(s.to_string())
}

fn err_of(input: Vec<Tok>) -> SyntaxError {
    let preserve = pub_all(&input, Policy::Preserve);
    let force = pub_all(&input, Policy::Force);
    // The policy only shapes the output; failure is the same either way.
    assert_eq!(preserve, force);
    preserve.unwrap_err()
}

/// `struct T { a i32 }`: a field missing its colon is reported at the token
/// standing where the colon should be, and nothing is emitted.
#[test]
fn missing_colon_is_reported_at_offending_token() {
    let input = vec![
        Tok::KwStruct,
        id("T"),
        Tok::LBrace,
        id("a"),
        id("i32"),
        Tok::RBrace,
    ];
    let e = err_of(input);
    assert_eq!(e.pos, 4);
    assert_eq!(e.expected, Expected::Colon);
}

/// A field whose colon is followed directly by the closing brace has no type.
#[test]
fn missing_type_is_an_error() {
    let input = vec![
        Tok::KwStruct,
        id("S"),
        Tok::LBrace,
        id("a"),
        Tok::Colon,
        Tok::RBrace,
    ];
    let e = err_of(input);
    assert_eq!(e.pos, 5);
    assert_eq!(e.expected, Expected::TypeExpr);
}

/// An unbalanced closing bracket inside a type span is malformed.
#[test]
fn unbalanced_type_is_an_error() {
    let input = vec![
        Tok::KwStruct,
        id("S"),
        Tok::LBrace,
        id("a"),
        Tok::Colon,
        Tok::Gt,
        Tok::RBrace,
    ];
    let e = err_of(input);
    assert_eq!(e.pos, 5);
    assert_eq!(e.expected, Expected::TypeExpr);
}

/// An input that ends before the field list closes lacks its closing brace.
#[test]
fn missing_closing_brace_is_an_error() {
    let input = vec![
        Tok::KwStruct,
        id("S"),
        Tok::LBrace,
        id("a"),
        Tok::Colon,
        id("i32"),
    ];
    let e = err_of(input);
    assert_eq!(e.pos, 6);
    assert_eq!(e.expected, Expected::CloseBrace);
}

/// A declaration whose keyword is not followed by a name is rejected.
#[test]
fn missing_name_is_an_error() {
    let input = vec![Tok::KwStruct, Tok::LBrace, Tok::RBrace];
    let e = err_of(input);
    assert_eq!(e.pos, 1);
    assert_eq!(e.expected, Expected::Identifier);
}

/// An input that never introduces the aggregate keyword is rejected at its
/// first token.
#[test]
fn missing_keyword_is_an_error() {
    let input = vec![id("foo")];
    let e = err_of(input);
    assert_eq!(e.pos, 0);
    assert_eq!(e.expected, Expected::KwStruct);
}

/// The empty input is rejected: the keyword is missing at position zero.
#[test]
fn empty_input_is_an_error() {
    let e = err_of(Vec::new());
    assert_eq!(e.pos, 0);
    assert_eq!(e.expected, Expected::KwStruct);
}

/// A name not followed by the opening brace is rejected.
#[test]
fn missing_open_brace_is_an_error() {
    let input = vec![Tok::KwStruct, id("S")];
    let e = err_of(input);
    assert_eq!(e.pos, 2);
    assert_eq!(e.expected, Expected::OpenBrace);
}

/// Something other than a field name after the opening brace is rejected.
#[test]
fn missing_field_name_is_an_error() {
    let input = vec![Tok::KwStruct, id("S"), Tok::LBrace, Tok::Comma, Tok::RBrace];
    let e = err_of(input);
    assert_eq!(e.pos, 3);
    assert_eq!(e.expected, Expected::Identifier);
}

/// A restricted marker whose parenthesis never closes is rejected.
#[test]
fn unclosed_restriction_is_an_error() {
    let input = vec![Tok::KwPub, Tok::LParen, id("crate")];
    let e = err_of(input);
    assert_eq!(e.pos, 3);
    assert_eq!(e.expected, Expected::CloseParen);
}

/// Tokens after the closing brace do not belong to the declaration: the input
/// must be exactly one declaration.
#[test]
fn trailing_tokens_are_an_error() {
    let input = vec![
        Tok::KwStruct,
        id("S"),
        Tok::LBrace,
        Tok::RBrace,
        Tok::KwStruct,
    ];
    let e = err_of(input);
    assert_eq!(e.pos, 4);
    assert_eq!(e.expected, Expected::EndOfInput);
}

/// Parsing stops at the first error: later violations go unreported.
#[test]
fn first_error_wins() {
    // Both the colon of `a` and the whole of `b`'s type are missing; only the
    // first is reported.
    let input = vec![
        Tok::KwStruct,
        id("T"),
        Tok::LBrace,
        id("a"),
        id("i32"),
        Tok::Comma,
        id("b"),
        Tok::Colon,
        Tok::RBrace,
    ];
    let e = err_of(input);
    assert_eq!(e.pos, 4);
    assert_eq!(e.expected, Expected::Colon);
}
