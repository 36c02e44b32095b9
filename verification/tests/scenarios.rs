use puball::ast::Policy;
use puball::pub_all;
use puball::token::Tok;

fn id(s: &str) -> Tok {
    Tok::Ident(s.to_string())
}

/// `pub struct P { a: i32, b: String, c: bool }` under Force mode: the
/// aggregate marker is (re)written and every field gains `pub`, each field
/// ending in the emitter's separating comma.
#[test]
fn force_makes_every_field_public() {
    let input = vec![
        Tok::KwPub,
        Tok::KwStruct,
        id("P"),
        Tok::LBrace,
        id("a"),
        Tok::Colon,
        id("i32"),
        Tok::Comma,
        id("b"),
        Tok::Colon,
        id("String"),
        Tok::Comma,
        id("c"),
        Tok::Colon,
        id("bool"),
        Tok::RBrace,
    ];
    let expected = vec![
        Tok::KwPub,
        Tok::KwStruct,
        id("P"),
        Tok::LBrace,
        Tok::KwPub,
        id("a"),
        Tok::Colon,
        id("i32"),
        Tok::Comma,
        Tok::KwPub,
        id("b"),
        Tok::Colon,
        id("String"),
        Tok::Comma,
        Tok::KwPub,
        id("c"),
        Tok::Colon,
        id("bool"),
        Tok::Comma,
        Tok::RBrace,
    ];
    assert_eq!(pub_all(&input, Policy::Force).unwrap(), expected);
}

/// `struct Q { x: u8 }` under Preserve mode: the aggregate's absent marker
/// stays absent; the field becomes fully visible.
#[test]
fn preserve_keeps_absent_marker() {
    let input = vec![
        Tok::KwStruct,
        id("Q"),
        Tok::LBrace,
        id("x"),
        Tok::Colon,
        id("u8"),
        Tok::RBrace,
    ];
    let expected = vec![
        Tok::KwStruct,
        id("Q"),
        Tok::LBrace,
        Tok::KwPub,
        id("x"),
        Tok::Colon,
        id("u8"),
        Tok::Comma,
        Tok::RBrace,
    ];
    assert_eq!(pub_all(&input, Policy::Preserve).unwrap(), expected);
}

/// `pub(crate) struct R { y: Vec<u8>, }` under Preserve mode: the restricted
/// marker is reproduced verbatim and the trailing comma of the input changes
/// nothing in the parsed fields.
#[test]
fn preserve_keeps_restricted_marker() {
    let input = vec![
        Tok::KwPub,
        Tok::LParen,
        id("crate"),
        Tok::RParen,
        Tok::KwStruct,
        id("R"),
        Tok::LBrace,
        id("y"),
        Tok::Colon,
        id("Vec"),
        Tok::Lt,
        id("u8"),
        Tok::Gt,
        Tok::Comma,
        Tok::RBrace,
    ];
    let expected = vec![
        Tok::KwPub,
        Tok::LParen,
        id("crate"),
        Tok::RParen,
        Tok::KwStruct,
        id("R"),
        Tok::LBrace,
        Tok::KwPub,
        id("y"),
        Tok::Colon,
        id("Vec"),
        Tok::Lt,
        id("u8"),
        Tok::Gt,
        Tok::Comma,
        Tok::RBrace,
    ];
    assert_eq!(pub_all(&input, Policy::Preserve).unwrap(), expected);
}

/// `struct S { }`: an empty field list passes through with an empty body;
/// Force mode additionally prefixes the aggregate marker.
#[test]
fn empty_field_list_passes_through() {
    let input = vec![Tok::KwStruct, id("S"), Tok::LBrace, Tok::RBrace];
    let preserved = vec![Tok::KwStruct, id("S"), Tok::LBrace, Tok::RBrace];
    let forced = vec![Tok::KwPub, Tok::KwStruct, id("S"), Tok::LBrace, Tok::RBrace];
    assert_eq!(pub_all(&input, Policy::Preserve).unwrap(), preserved);
    assert_eq!(pub_all(&input, Policy::Force).unwrap(), forced);
}

/// A field list with and without the trailing comma parses to the same fields
/// and emits the same declaration.
#[test]
fn trailing_comma_changes_nothing() {
    let with_comma = vec![
        Tok::KwStruct,
        id("Q"),
        Tok::LBrace,
        id("x"),
        Tok::Colon,
        id("u8"),
        Tok::Comma,
        Tok::RBrace,
    ];
    let without_comma = vec![
        Tok::KwStruct,
        id("Q"),
        Tok::LBrace,
        id("x"),
        Tok::Colon,
        id("u8"),
        Tok::RBrace,
    ];
    assert_eq!(
        pub_all(&with_comma, Policy::Preserve).unwrap(),
        pub_all(&without_comma, Policy::Preserve).unwrap(),
    );
    assert_eq!(
        pub_all(&with_comma, Policy::Force).unwrap(),
        pub_all(&without_comma, Policy::Force).unwrap(),
    );
}

/// An already fully visible declaration with an empty body is a fixed point:
/// applying the transformation to its own output changes nothing further.
#[test]
fn output_of_empty_declaration_is_fixed_point() {
    let input = vec![Tok::KwStruct, id("S"), Tok::LBrace, Tok::RBrace];
    let once = pub_all(&input, Policy::Force).unwrap();
    let twice = pub_all(&once, Policy::Force).unwrap();
    assert_eq!(once, twice);
    let preserved_again = pub_all(&once, Policy::Preserve).unwrap();
    assert_eq!(once, preserved_again);
}

/// Identical input gives identical output: the policy, not the call, decides.
#[test]
fn repeated_calls_are_deterministic() {
    let input = vec![
        Tok::KwStruct,
        id("Q"),
        Tok::LBrace,
        id("x"),
        Tok::Colon,
        id("u8"),
        Tok::RBrace,
    ];
    assert_eq!(
        pub_all(&input, Policy::Preserve).unwrap(),
        pub_all(&input, Policy::Preserve).unwrap(),
    );
    assert_eq!(
        pub_all(&input, Policy::Force).unwrap(),
        pub_all(&input, Policy::Force).unwrap(),
    );
}

/// Field order is preserved exactly: same names, same types, same relative
/// order, read back from the parser's own result.
#[test]
fn parse_keeps_field_order() {
    let input = vec![
        Tok::KwStruct,
        id("P"),
        Tok::LBrace,
        id("first"),
        Tok::Colon,
        id("i32"),
        Tok::Comma,
        id("second"),
        Tok::Colon,
        Tok::Amp,
        id("str"),
        Tok::Comma,
        id("third"),
        Tok::Colon,
        Tok::LParen,
        id("u8"),
        Tok::Comma,
        id("u8"),
        Tok::RParen,
        Tok::RBrace,
    ];
    let (decl, consumed) = puball::parser::parse_decl(&input, 0).unwrap();
    assert_eq!(consumed, input.len());
    assert_eq!(decl.name, "P".to_string());
    assert_eq!(decl.fields.len(), 3);
    assert_eq!(decl.fields[0].name, "first".to_string());
    assert_eq!(decl.fields[0].ty, vec![id("i32")]);
    assert_eq!(decl.fields[1].name, "second".to_string());
    assert_eq!(decl.fields[1].ty, vec![Tok::Amp, id("str")]);
    assert_eq!(decl.fields[2].name, "third".to_string());
    assert_eq!(
        decl.fields[2].ty,
        vec![Tok::LParen, id("u8"), Tok::Comma, id("u8"), Tok::RParen],
    );
}

/// A comma nested inside a generic argument list belongs to the type span: it
/// separates no fields.
#[test]
fn comma_inside_brackets_does_not_split_fields() {
    let input = vec![
        Tok::KwStruct,
        id("M"),
        Tok::LBrace,
        id("m"),
        Tok::Colon,
        id("Pair"),
        Tok::Lt,
        id("u8"),
        Tok::Comma,
        Tok::LParen,
        id("u16"),
        Tok::Comma,
        id("u32"),
        Tok::RParen,
        Tok::Gt,
        Tok::RBrace,
    ];
    let (decl, _) = puball::parser::parse_decl(&input, 0).unwrap();
    assert_eq!(decl.fields.len(), 1);
    assert_eq!(decl.fields[0].name, "m".to_string());
    assert_eq!(
        decl.fields[0].ty,
        vec![
            id("Pair"),
            Tok::Lt,
            id("u8"),
            Tok::Comma,
            Tok::LParen,
            id("u16"),
            Tok::Comma,
            id("u32"),
            Tok::RParen,
            Tok::Gt,
        ],
    );
}

/// A qualified type span is carried through opaquely and verbatim.
#[test]
fn qualified_type_is_copied_verbatim() {
    let input = vec![
        Tok::KwStruct,
        id("W"),
        Tok::LBrace,
        id("s"),
        Tok::Colon,
        id("std"),
        Tok::PathSep,
        id("string"),
        Tok::PathSep,
        id("String"),
        Tok::RBrace,
    ];
    let expected = vec![
        Tok::KwStruct,
        id("W"),
        Tok::LBrace,
        Tok::KwPub,
        id("s"),
        Tok::Colon,
        id("std"),
        Tok::PathSep,
        id("string"),
        Tok::PathSep,
        id("String"),
        Tok::Comma,
        Tok::RBrace,
    ];
    assert_eq!(pub_all(&input, Policy::Preserve).unwrap(), expected);
}
