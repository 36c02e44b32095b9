use vstd::prelude::*;

use crate::ast::{Decl, DeclV, ErrV, Expected, Field, FieldV, SyntaxError, Vis, VisV, fields_view};
use crate::token::{Tok, copy_range};

verus! {

// ---------------------------------------------------------------------------
// The grammar, as spec functions over token sequences.
//
// The language recognized is
//     decl := [visibility] 'struct' name '{' (field (',' field)* [','])? '}'
//     field := name ':' type
// where a type is a nonempty opaque token span, consumed up to the first
// comma or closing brace at bracket depth zero. Every spec function returns
// either the parsed value together with the position just past it, or the
// error the executable parser reports: the offending position and the
// construct expected there.
// ---------------------------------------------------------------------------

/// Scans one type expression starting at `i` with open bracket depth `depth`:
/// the result is the position of the first `,` or `}` at depth zero, the
/// tokens before it being the type span. `<`/`(` open a bracket, `>`/`)`
/// close one; a closer with no bracket open is malformed, and an input that
/// ends first lacks its closing brace.
pub open spec fn spec_scan_type(t: Seq<Tok>, i: int, depth: int) -> Result<int, ErrV>
    decreases t.len() - i,
{
    if i < 0 || i >= t.len() {
        Err(ErrV { pos: t.len() as int, expected: Expected::CloseBrace })
    } else if depth == 0 && (t[i] is Comma || t[i] is RBrace) {
        Ok(i)
    } else if t[i] is Lt || t[i] is LParen {
        spec_scan_type(t, i + 1, depth + 1)
    } else if t[i] is Gt || t[i] is RParen {
        if depth == 0 {
            Err(ErrV { pos: i, expected: Expected::TypeExpr })
        } else {
            spec_scan_type(t, i + 1, depth - 1)
        }
    } else {
        spec_scan_type(t, i + 1, depth)
    }
}

/// Parses one field at `i`: an identifier, a colon, and a nonempty type span.
/// The returned position is that of the `,` or `}` that ended the type span,
/// which is not consumed.
pub open spec fn spec_parse_field(t: Seq<Tok>, i: int) -> Result<(FieldV, int), ErrV> {
    if i >= t.len() {
        Err(ErrV { pos: t.len() as int, expected: Expected::Identifier })
    } else if !(t[i] is Ident) {
        Err(ErrV { pos: i, expected: Expected::Identifier })
    } else if i + 1 >= t.len() {
        Err(ErrV { pos: t.len() as int, expected: Expected::Colon })
    } else if !(t[i + 1] is Colon) {
        Err(ErrV { pos: i + 1, expected: Expected::Colon })
    } else {
        match spec_scan_type(t, i + 2, 0) {
            Err(e) => Err(e),
            Ok(j) => {
                if j == i + 2 {
                    Err(ErrV { pos: i + 2, expected: Expected::TypeExpr })
                } else {
                    Ok((FieldV { name: t[i]->Ident_0, ty: t.subrange(i + 2, j) }, j))
                }
            },
        }
    }
}

/// Parses the field list at `i`, the position right after the opening brace,
/// through the closing brace: zero or more comma-separated fields, a trailing
/// comma permitted. The returned position is just past the closing brace.
pub open spec fn spec_parse_fields(t: Seq<Tok>, i: int) -> Result<(Seq<FieldV>, int), ErrV>
    decreases t.len() - i,
{
    if i < 0 || i >= t.len() {
        Err(ErrV { pos: t.len() as int, expected: Expected::CloseBrace })
    } else if t[i] is RBrace {
        Ok((Seq::empty(), i + 1))
    } else {
        match spec_parse_field(t, i) {
            Err(e) => Err(e),
            Ok((f, j)) => {
                // A successful field parse always lands on a `,` or `}` after
                // at least three tokens; these two arms are unreachable and
                // only settle termination.
                if j <= i || j >= t.len() {
                    Err(ErrV { pos: t.len() as int, expected: Expected::CloseBrace })
                } else if !(t[j] is Comma || t[j] is RBrace) {
                    Err(ErrV { pos: j, expected: Expected::CloseBrace })
                } else if t[j] is RBrace {
                    Ok((seq![f], j + 1))
                } else {
                    match spec_parse_fields(t, j + 1) {
                        Err(e) => Err(e),
                        Ok((fs, k)) => Ok((seq![f] + fs, k)),
                    }
                }
            },
        }
    }
}

/// Finds the `)` closing a restricted-visibility marker: the position of the
/// first `)` at or after `i`.
pub open spec fn spec_scan_paren(t: Seq<Tok>, i: int) -> Result<int, ErrV>
    decreases t.len() - i,
{
    if i < 0 || i >= t.len() {
        Err(ErrV { pos: t.len() as int, expected: Expected::CloseParen })
    } else if t[i] is RParen {
        Ok(i)
    } else {
        spec_scan_paren(t, i + 1)
    }
}

/// Parses the optional visibility marker at `i`: nothing, `pub`, or
/// `pub ( ... )` with the tokens between the parentheses kept verbatim.
pub open spec fn spec_parse_vis(t: Seq<Tok>, i: int) -> Result<(VisV, int), ErrV> {
    if i >= t.len() || !(t[i] is KwPub) {
        Ok((VisV::Inherited, i))
    } else if i + 1 < t.len() && t[i + 1] is LParen {
        match spec_scan_paren(t, i + 2) {
            Err(e) => Err(e),
            Ok(j) => Ok((VisV::Restricted(t.subrange(i + 2, j)), j + 1)),
        }
    } else {
        Ok((VisV::Public, i + 1))
    }
}

/// Parses one whole declaration at `i`: visibility, the `struct` keyword, the
/// aggregate's name, and the braced field list. The returned position is just
/// past the closing brace.
pub open spec fn spec_parse_decl(t: Seq<Tok>, i: int) -> Result<(DeclV, int), ErrV> {
    match spec_parse_vis(t, i) {
        Err(e) => Err(e),
        Ok((vis, j)) => {
            if j >= t.len() || !(t[j] is KwStruct) {
                Err(ErrV { pos: j, expected: Expected::KwStruct })
            } else if j + 1 >= t.len() || !(t[j + 1] is Ident) {
                Err(ErrV { pos: j + 1, expected: Expected::Identifier })
            } else if j + 2 >= t.len() || !(t[j + 2] is LBrace) {
                Err(ErrV { pos: j + 2, expected: Expected::OpenBrace })
            } else {
                match spec_parse_fields(t, j + 3) {
                    Err(e) => Err(e),
                    Ok((fs, k)) => Ok(
                        (DeclV { vis, name: t[j + 1]->Ident_0, fields: fs }, k),
                    ),
                }
            }
        },
    }
}

/// Parses the whole input as exactly one declaration: tokens after the
/// closing brace are an error at the first of them.
pub open spec fn spec_parse(t: Seq<Tok>) -> Result<DeclV, ErrV> {
    match spec_parse_decl(t, 0) {
        Err(e) => Err(e),
        Ok((d, k)) => {
            if k == t.len() {
                Ok(d)
            } else {
                Err(ErrV { pos: k, expected: Expected::EndOfInput })
            }
        },
    }
}

// ---------------------------------------------------------------------------
// Facts about the spec parser that callers and proofs lean on.
// ---------------------------------------------------------------------------

/// A successful type scan lands within the input on a `,` or `}`, at or past
/// its starting point.
pub proof fn lemma_scan_type_ok(t: Seq<Tok>, i: int, depth: int, j: int)
    requires
        spec_scan_type(t, i, depth) == Ok::<int, ErrV>(j),
    ensures
        i <= j < t.len(),
        t[j] is Comma || t[j] is RBrace,
    decreases t.len() - i,
{
    if 0 <= i < t.len() {
        if depth == 0 && (t[i] is Comma || t[i] is RBrace) {
        } else if t[i] is Lt || t[i] is LParen {
            lemma_scan_type_ok(t, i + 1, depth + 1, j);
        } else if t[i] is Gt || t[i] is RParen {
            if depth != 0 {
                lemma_scan_type_ok(t, i + 1, depth - 1, j);
            }
        } else {
            lemma_scan_type_ok(t, i + 1, depth, j);
        }
    }
}

/// A successful field parse consumes at least a name, a colon and one type
/// token, and lands within the input on a `,` or `}`.
pub proof fn lemma_parse_field_ok(t: Seq<Tok>, i: int, f: FieldV, j: int)
    requires
        spec_parse_field(t, i) == Ok::<(FieldV, int), ErrV>((f, j)),
    ensures
        i + 3 <= j < t.len(),
        t[j] is Comma || t[j] is RBrace,
        f.ty.len() >= 1,
{
    let scan = spec_scan_type(t, i + 2, 0);
    lemma_scan_type_ok(t, i + 2, 0, scan->Ok_0);
}

/// A successful paren scan lands within the input on a `)`, at or past its
/// starting point.
pub proof fn lemma_scan_paren_ok(t: Seq<Tok>, i: int, j: int)
    requires
        spec_scan_paren(t, i) == Ok::<int, ErrV>(j),
    ensures
        i <= j < t.len(),
        t[j] is RParen,
    decreases t.len() - i,
{
    if 0 <= i < t.len() && !(t[i] is RParen) {
        lemma_scan_paren_ok(t, i + 1, j);
    }
}

// ---------------------------------------------------------------------------
// The executable parser, proved to return exactly what the spec grammar says.
// ---------------------------------------------------------------------------

/// Scans one type expression starting at `start`.
pub fn scan_type(t: &Vec<Tok>, start: usize) -> (r: Result<usize, SyntaxError>)
    requires
        start <= t@.len(),
    ensures
        match r {
            Ok(j) => spec_scan_type(t@, start as int, 0) == Ok::<int, ErrV>(j as int)
                && start <= j < t@.len() && (t@[j as int] is Comma || t@[j as int] is RBrace),
            Err(e) => spec_scan_type(t@, start as int, 0) == Err::<int, ErrV>(e@),
        },
{
    let mut i = start;
    let mut depth: usize = 0;
    loop
        invariant
            start <= i <= t@.len(),
            depth <= i - start,
            spec_scan_type(t@, start as int, 0) == spec_scan_type(t@, i as int, depth as int),
        decreases t@.len() - i,
    {
        if i == t.len() {
            return Err(SyntaxError { pos: i, expected: Expected::CloseBrace });
        }
        match &t[i] {
            Tok::Comma | Tok::RBrace => {
                if depth == 0 {
                    proof {
                        lemma_scan_type_ok(t@, start as int, 0, i as int);
                    }
                    return Ok(i);
                }
                i = i + 1;
            },
            Tok::Lt | Tok::LParen => {
                depth = depth + 1;
                i = i + 1;
            },
            Tok::Gt | Tok::RParen => {
                if depth == 0 {
                    return Err(SyntaxError { pos: i, expected: Expected::TypeExpr });
                }
                depth = depth - 1;
                i = i + 1;
            },
            _ => {
                i = i + 1;
            },
        }
    }
}

/// Parses one field at `i`. On success the returned position is that of the
/// `,` or `}` that ended the type span, which is not consumed.
pub fn parse_field(t: &Vec<Tok>, i: usize) -> (r: Result<(Field, usize), SyntaxError>)
    requires
        i <= t@.len(),
    ensures
        match r {
            Ok(fj) => spec_parse_field(t@, i as int)
                == Ok::<(FieldV, int), ErrV>((fj.0@, fj.1 as int))
                && i < fj.1 < t@.len()
                && (t@[fj.1 as int] is Comma || t@[fj.1 as int] is RBrace),
            Err(e) => spec_parse_field(t@, i as int) == Err::<(FieldV, int), ErrV>(e@),
        },
{
    if i == t.len() {
        return Err(SyntaxError { pos: i, expected: Expected::Identifier });
    }
    let name = match &t[i] {
        Tok::Ident(s) => s.clone(),
        _ => {
            return Err(SyntaxError { pos: i, expected: Expected::Identifier });
        },
    };
    if i + 1 == t.len() {
        return Err(SyntaxError { pos: i + 1, expected: Expected::Colon });
    }
    match &t[i + 1] {
        Tok::Colon => {},
        _ => {
            return Err(SyntaxError { pos: i + 1, expected: Expected::Colon });
        },
    }
    let start = i + 2;
    match scan_type(t, start) {
        Err(e) => Err(e),
        Ok(j) => {
            if j == start {
                return Err(SyntaxError { pos: start, expected: Expected::TypeExpr });
            }
            let ty = copy_range(t, start, j);
            Ok((Field { name, ty }, j))
        },
    }
}

/// Parses the field list at `i`, the position right after the opening brace,
/// through the closing brace.
pub fn parse_fields(t: &Vec<Tok>, i: usize) -> (r: Result<(Vec<Field>, usize), SyntaxError>)
    requires
        i <= t@.len(),
    ensures
        match r {
            Ok(fsk) => spec_parse_fields(t@, i as int)
                == Ok::<(Seq<FieldV>, int), ErrV>((fields_view(fsk.0@), fsk.1 as int))
                && i < fsk.1 <= t@.len(),
            Err(e) => spec_parse_fields(t@, i as int) == Err::<(Seq<FieldV>, int), ErrV>(e@),
        },
{
    let mut acc: Vec<Field> = Vec::new();
    let mut cur = i;
    loop
        invariant
            i <= cur <= t@.len(),
            match spec_parse_fields(t@, cur as int) {
                Ok(rest) => spec_parse_fields(t@, i as int)
                    == Ok::<(Seq<FieldV>, int), ErrV>((fields_view(acc@) + rest.0, rest.1)),
                Err(e) => spec_parse_fields(t@, i as int)
                    == Err::<(Seq<FieldV>, int), ErrV>(e),
            },
        decreases t@.len() - cur,
    {
        if cur == t.len() {
            return Err(SyntaxError { pos: cur, expected: Expected::CloseBrace });
        }
        match &t[cur] {
            Tok::RBrace => {
                proof {
                    assert(fields_view(acc@) + Seq::<FieldV>::empty() =~= fields_view(acc@));
                }
                return Ok((acc, cur + 1));
            },
            _ => {},
        }
        match parse_fields_step(t, cur) {
            Err(e) => {
                return Err(e);
            },
            Ok((f, j, done)) => {
                let ghost prev = acc@;
                acc.push(f);
                proof {
                    assert(fields_view(acc@) =~= fields_view(prev) + seq![f@]);
                }
                if done {
                    proof {
                        assert(fields_view(prev) + seq![f@] =~= fields_view(acc@));
                    }
                    return Ok((acc, j + 1));
                }
                proof {
                    if let Ok((fs, k)) = spec_parse_fields(t@, j + 1 as int) {
                        assert((fields_view(prev) + seq![f@]) + fs
                            =~= fields_view(prev) + (seq![f@] + fs));
                    }
                }
                cur = j + 1;
            },
        }
    }
}

/// One step of the field-list loop: parses the field at `cur`, which is known
/// not to sit on the closing brace, and reports whether the token after it
/// closed the list (`}`) or continued it (`,`).
fn parse_fields_step(t: &Vec<Tok>, cur: usize) -> (r: Result<(Field, usize, bool), SyntaxError>)
    requires
        cur < t@.len(),
        !(t@[cur as int] is RBrace),
    ensures
        match r {
            Ok(fjd) => {
                &&& spec_parse_field(t@, cur as int)
                    == Ok::<(FieldV, int), ErrV>((fjd.0@, fjd.1 as int))
                &&& cur < fjd.1 < t@.len()
                &&& fjd.2 ==> t@[fjd.1 as int] is RBrace
                    && spec_parse_fields(t@, cur as int)
                        == Ok::<(Seq<FieldV>, int), ErrV>((seq![fjd.0@], fjd.1 + 1 as int))
                &&& !fjd.2 ==> t@[fjd.1 as int] is Comma
                    && spec_parse_fields(t@, cur as int)
                        == (match spec_parse_fields(t@, fjd.1 + 1 as int) {
                            Ok((fs, k)) => Ok::<(Seq<FieldV>, int), ErrV>((seq![fjd.0@] + fs, k)),
                            Err(e) => Err::<(Seq<FieldV>, int), ErrV>(e),
                        })
            },
            Err(e) => spec_parse_fields(t@, cur as int) == Err::<(Seq<FieldV>, int), ErrV>(e@),
        },
{
    match parse_field(t, cur) {
        Err(e) => Err(e),
        Ok((f, j)) => {
            let done = match &t[j] {
                Tok::RBrace => true,
                _ => false,
            };
            Ok((f, j, done))
        },
    }
}

/// Finds the `)` closing a restricted-visibility marker.
fn scan_paren(t: &Vec<Tok>, start: usize) -> (r: Result<usize, SyntaxError>)
    requires
        start <= t@.len(),
    ensures
        match r {
            Ok(j) => spec_scan_paren(t@, start as int) == Ok::<int, ErrV>(j as int)
                && start <= j < t@.len() && t@[j as int] is RParen,
            Err(e) => spec_scan_paren(t@, start as int) == Err::<int, ErrV>(e@),
        },
{
    let mut j = start;
    loop
        invariant
            start <= j <= t@.len(),
            spec_scan_paren(t@, start as int) == spec_scan_paren(t@, j as int),
        decreases t@.len() - j,
    {
        if j == t.len() {
            return Err(SyntaxError { pos: j, expected: Expected::CloseParen });
        }
        match &t[j] {
            Tok::RParen => {
                return Ok(j);
            },
            _ => {},
        }
        j = j + 1;
    }
}

/// Parses the optional visibility marker at `i`.
pub fn parse_vis(t: &Vec<Tok>, i: usize) -> (r: Result<(Vis, usize), SyntaxError>)
    requires
        i <= t@.len(),
    ensures
        match r {
            Ok(vj) => spec_parse_vis(t@, i as int) == Ok::<(VisV, int), ErrV>((vj.0@, vj.1 as int))
                && i <= vj.1 <= t@.len(),
            Err(e) => spec_parse_vis(t@, i as int) == Err::<(VisV, int), ErrV>(e@),
        },
{
    if i == t.len() {
        return Ok((Vis::Inherited, i));
    }
    match &t[i] {
        Tok::KwPub => {},
        _ => {
            return Ok((Vis::Inherited, i));
        },
    }
    if i + 1 < t.len() {
        let paren = match &t[i + 1] {
            Tok::LParen => true,
            _ => false,
        };
        if paren {
            return match scan_paren(t, i + 2) {
                Err(e) => Err(e),
                Ok(j) => {
                    let inner = copy_range(t, i + 2, j);
                    Ok((Vis::Restricted(inner), j + 1))
                },
            };
        }
    }
    Ok((Vis::Public, i + 1))
}

/// Parses one whole declaration at `i`. On success the returned position is
/// just past the closing brace.
pub fn parse_decl(t: &Vec<Tok>, i: usize) -> (r: Result<(Decl, usize), SyntaxError>)
    requires
        i <= t@.len(),
    ensures
        match r {
            Ok(dk) => spec_parse_decl(t@, i as int)
                == Ok::<(DeclV, int), ErrV>((dk.0@, dk.1 as int))
                && i < dk.1 <= t@.len(),
            Err(e) => spec_parse_decl(t@, i as int) == Err::<(DeclV, int), ErrV>(e@),
        },
{
    let (vis, j) = match parse_vis(t, i) {
        Err(e) => {
            return Err(e);
        },
        Ok(vj) => vj,
    };
    if j == t.len() {
        return Err(SyntaxError { pos: j, expected: Expected::KwStruct });
    }
    match &t[j] {
        Tok::KwStruct => {},
        _ => {
            return Err(SyntaxError { pos: j, expected: Expected::KwStruct });
        },
    }
    if j + 1 == t.len() {
        return Err(SyntaxError { pos: j + 1, expected: Expected::Identifier });
    }
    let name = match &t[j + 1] {
        Tok::Ident(s) => s.clone(),
        _ => {
            return Err(SyntaxError { pos: j + 1, expected: Expected::Identifier });
        },
    };
    if j + 2 == t.len() {
        return Err(SyntaxError { pos: j + 2, expected: Expected::OpenBrace });
    }
    match &t[j + 2] {
        Tok::LBrace => {},
        _ => {
            return Err(SyntaxError { pos: j + 2, expected: Expected::OpenBrace });
        },
    }
    match parse_fields(t, j + 3) {
        Err(e) => Err(e),
        Ok((fields, k)) => Ok((Decl { vis, name, fields }, k)),
    }
}

} // verus!
