use vstd::prelude::*;

verus! {

/// One token of an aggregate declaration.
///
/// The pipeline works on pre-tokenized input: the host hands it a sequence of
/// these tokens and takes a sequence of them back. Identifier tokens carry
/// their text; every other token is a keyword or a piece of punctuation of the
/// grammar. Inside a type expression all tokens are opaque: the parser only
/// tracks the bracket depth contributed by `Lt`/`Gt` and `LParen`/`RParen`.
#[derive(Debug, PartialEq, Eq)]
pub enum Tok {
    /// An identifier: an aggregate name, a field name, or part of a type.
    Ident(String),
    /// The `pub` keyword.
    KwPub,
    /// The `struct` keyword.
    KwStruct,
    /// `:` between a field name and its type.
    Colon,
    /// The `::` path separator inside a type.
    PathSep,
    /// `,` separating fields.
    Comma,
    /// `{` opening the field list.
    LBrace,
    /// `}` closing the field list.
    RBrace,
    /// `(` opening a restricted-visibility argument or a tuple type.
    LParen,
    /// `)` closing a restricted-visibility argument or a tuple type.
    RParen,
    /// `<` opening a generic argument list.
    Lt,
    /// `>` closing a generic argument list.
    Gt,
    /// `&` introducing a reference type.
    Amp,
}

/// Copies one token; the copy equals the original.
pub fn tok_dup(t: &Tok) -> (r: Tok)
    ensures
        r == *t,
{
    match t {
        Tok::Ident(s) => Tok::Ident(s.clone()),
        Tok::KwPub => Tok::KwPub,
        Tok::KwStruct => Tok::KwStruct,
        Tok::Colon => Tok::Colon,
        Tok::PathSep => Tok::PathSep,
        Tok::Comma => Tok::Comma,
        Tok::LBrace => Tok::LBrace,
        Tok::RBrace => Tok::RBrace,
        Tok::LParen => Tok::LParen,
        Tok::RParen => Tok::RParen,
        Tok::Lt => Tok::Lt,
        Tok::Gt => Tok::Gt,
        Tok::Amp => Tok::Amp,
    }
}

/// Copies the token span `t[a..b]` into a fresh vector.
pub fn copy_range(t: &Vec<Tok>, a: usize, b: usize) -> (r: Vec<Tok>)
    requires
        a <= b <= t@.len(),
    ensures
        r@ == t@.subrange(a as int, b as int),
{
    let mut r: Vec<Tok> = Vec::new();
    let mut k = a;
    while k < b
        invariant
            a <= k <= b <= t@.len(),
            r@ == t@.subrange(a as int, k as int),
        decreases b - k,
    {
        r.push(tok_dup(&t[k]));
        proof {
            assert(t@.subrange(a as int, k + 1 as int)
                =~= t@.subrange(a as int, k as int).push(t@[k as int]));
        }
        k = k + 1;
    }
    r
}

} // verus!
