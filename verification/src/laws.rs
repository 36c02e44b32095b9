use vstd::prelude::*;

use crate::ast::{DeclV, ErrV, Expected, FieldV, Policy, VisV};
use crate::emit::{
    emit_toks, field_toks, fields_toks, lemma_fields_toks_snoc, lemma_fields_toks_split, vis_toks,
};
use crate::parser::{
    lemma_parse_field_ok, lemma_scan_paren_ok, spec_parse, spec_parse_decl, spec_parse_field,
    spec_parse_fields, spec_parse_vis, spec_scan_paren, spec_scan_type,
};
use crate::reparse::{lemma_scan_type_transfer, wf_field, wf_vis};
use crate::token::Tok;

verus! {

// ---------------------------------------------------------------------------
// Round-trip structure.
// ---------------------------------------------------------------------------

/// For any syntactically valid declaration, the emitted declaration carries
/// exactly the same fields in the same relative order: field `k` stands in the
/// output at the offset the fields before it determine, as its original name,
/// its original type span verbatim, and the full-visibility marker in front.
pub proof fn lemma_round_trip_structure(t: Seq<Tok>, d: DeclV, policy: Policy, k: int)
    requires
        spec_parse(t) == Ok::<DeclV, ErrV>(d),
        0 <= k < d.fields.len(),
    ensures
        ({
            let off = vis_toks(d.vis, policy).len() + 3 + fields_toks(d.fields.take(k)).len();
            let ft = field_toks(d.fields[k]);
            &&& emit_toks(d, policy).subrange(off as int, off as int + ft.len() as int) == ft
            &&& ft == seq![Tok::KwPub, Tok::Ident(d.fields[k].name), Tok::Colon]
                + d.fields[k].ty + seq![Tok::Comma]
        }),
{
    let fs = d.fields;
    lemma_fields_toks_split(fs, k);
    lemma_fields_toks_snoc(fs, k);
    lemma_fields_toks_split(fs, k + 1);
    let off = vis_toks(d.vis, policy).len() + 3 + fields_toks(fs.take(k)).len();
    let ft = field_toks(fs[k]);
    assert(fields_toks(fs.take(k + 1)) == fields_toks(fs.take(k)) + ft);
    assert(fields_toks(fs)
        == (fields_toks(fs.take(k)) + ft) + fields_toks(fs.skip(k + 1)));
    assert(emit_toks(d, policy).subrange(off as int, off as int + ft.len() as int) =~= ft);
}

// ---------------------------------------------------------------------------
// Policy determinism.
// ---------------------------------------------------------------------------

/// Preserve mode reproduces the input's aggregate-level visibility marker
/// verbatim: the emitted marker is exactly the token span the parser consumed
/// for it, including the empty span when none was written.
pub proof fn lemma_preserve_visibility(t: Seq<Tok>, v: VisV, j: int)
    requires
        spec_parse_vis(t, 0) == Ok::<(VisV, int), ErrV>((v, j)),
    ensures
        vis_toks(v, Policy::Preserve) == t.subrange(0, j),
{
    if 0 < t.len() && t[0] is KwPub {
        if 1 < t.len() && t[1] is LParen {
            let p = spec_scan_paren(t, 2)->Ok_0;
            lemma_scan_paren_ok(t, 2, p);
            assert(vis_toks(v, Policy::Preserve) =~= t.subrange(0, j));
        } else {
            assert(vis_toks(v, Policy::Preserve) =~= t.subrange(0, j));
        }
    } else {
        assert(vis_toks(v, Policy::Preserve) =~= t.subrange(0, j));
    }
}

/// Force mode produces the bare full-visibility marker whatever the input's
/// own marker was, absent ones included.
pub proof fn lemma_force_visibility(v: VisV)
    ensures
        vis_toks(v, Policy::Force) == seq![Tok::KwPub],
{
}

// ---------------------------------------------------------------------------
// Empty-field-list pass-through.
// ---------------------------------------------------------------------------

/// The `)` closing a restricted marker is found where it stands: at the first
/// closing parenthesis.
pub proof fn lemma_scan_paren_finds(t: Seq<Tok>, i: int, j: int)
    requires
        0 <= i <= j < t.len(),
        t[j] is RParen,
        forall|m: int| i <= m < j ==> !(t[m] is RParen),
    ensures
        spec_scan_paren(t, i) == Ok::<int, ErrV>(j),
    decreases j - i,
{
    if i < j {
        lemma_scan_paren_finds(t, i + 1, j);
    }
}

/// A declaration with zero fields parses successfully, under any visibility
/// marker whose restricted span holds no closing parenthesis of its own, and
/// emits a declaration with zero fields: its body stays the bare braces.
pub proof fn lemma_empty_decl(v: VisV, name: String, policy: Policy)
    requires
        wf_vis(v),
    ensures
        ({
            let t = vis_toks(v, Policy::Preserve)
                + seq![Tok::KwStruct, Tok::Ident(name), Tok::LBrace, Tok::RBrace];
            let d = DeclV { vis: v, name, fields: Seq::empty() };
            &&& spec_parse(t) == Ok::<DeclV, ErrV>(d)
            &&& emit_toks(d, policy) == vis_toks(v, policy)
                + seq![Tok::KwStruct, Tok::Ident(name), Tok::LBrace, Tok::RBrace]
        }),
{
    let t = vis_toks(v, Policy::Preserve)
        + seq![Tok::KwStruct, Tok::Ident(name), Tok::LBrace, Tok::RBrace];
    let d = DeclV { vis: v, name, fields: Seq::empty() };
    lemma_valid_decl_parses(v, name, Seq::empty(), false);
    assert(in_decl_toks(v, name, Seq::empty(), false) =~= t);
    assert(emit_toks(d, policy) =~= vis_toks(v, policy)
        + seq![Tok::KwStruct, Tok::Ident(name), Tok::LBrace, Tok::RBrace]);
}

// ---------------------------------------------------------------------------
// Trailing-comma tolerance, through parser completeness: every well-formed
// declaration, rendered with or without the trailing comma, parses back to
// exactly its own pieces.
// ---------------------------------------------------------------------------

/// The tokens of one input field, as an author writes it: `name : type`.
pub open spec fn in_field_toks(f: FieldV) -> Seq<Tok> {
    seq![Tok::Ident(f.name), Tok::Colon] + f.ty
}

/// The tokens of an input field list: comma-separated fields, with or without
/// the trailing comma before the closing brace.
pub open spec fn in_fields_toks(fs: Seq<FieldV>, trailing: bool) -> Seq<Tok>
    decreases fs.len(),
{
    if fs.len() == 0 {
        Seq::empty()
    } else if fs.len() == 1 {
        in_field_toks(fs[0]) + (if trailing {
            seq![Tok::Comma]
        } else {
            Seq::empty()
        })
    } else {
        in_field_toks(fs[0]) + seq![Tok::Comma] + in_fields_toks(fs.skip(1), trailing)
    }
}

/// The tokens of a whole input declaration.
pub open spec fn in_decl_toks(v: VisV, name: String, fs: Seq<FieldV>, trailing: bool) -> Seq<Tok> {
    vis_toks(v, Policy::Preserve) + seq![Tok::KwStruct, Tok::Ident(name), Tok::LBrace]
        + in_fields_toks(fs, trailing) + seq![Tok::RBrace]
}

/// A rendered field list, followed by its closing brace, parses back to
/// exactly its fields — identically with or without the trailing comma, which
/// moves nothing but the closing position.
#[verifier::rlimit(60)]
proof fn lemma_in_fields_parse(u: Seq<Tok>, p: int, fs: Seq<FieldV>, trailing: bool)
    requires
        0 <= p,
        forall|m: int| 0 <= m < fs.len() ==> wf_field(#[trigger] fs[m]),
        p + in_fields_toks(fs, trailing).len() < u.len(),
        u.subrange(p, p + in_fields_toks(fs, trailing).len() as int)
            == in_fields_toks(fs, trailing),
        u[p + in_fields_toks(fs, trailing).len()] is RBrace,
    ensures
        spec_parse_fields(u, p)
            == Ok::<(Seq<FieldV>, int), ErrV>((fs, p + in_fields_toks(fs, trailing).len() + 1)),
    decreases fs.len(),
{
    let body = in_fields_toks(fs, trailing);
    let blen = body.len() as int;
    if fs.len() == 0 {
        assert(u[p] is RBrace);
        assert(Seq::<FieldV>::empty() =~= fs);
    } else {
        let f0 = fs[0];
        let ty = f0.ty;
        let ift = in_field_toks(f0);
        assert(ift.len() == 2 + ty.len());
        assert forall|m: int| p <= m < p + blen implies #[trigger] u[m] == body[m - p] by {
            assert(u[m] == u.subrange(p, p + blen)[m - p]);
        }
        assert(u[p] == ift[0] && ift[0] == Tok::Ident(f0.name));
        assert(u[p + 1] == ift[1] && ift[1] == Tok::Colon);
        let j0 = p + 2 + ty.len() as int;
        let tyc = ty + seq![Tok::Comma];
        assert forall|m: int| p + 2 <= m < p + 2 + (tyc.len() - 1) implies #[trigger] u[m]
            == tyc[0 + (m - (p + 2))] by {
            assert(body[m - p] == ift[m - p]);
            assert(ift[m - p] == ty[m - p - 2]);
        }
        assert(u[j0] is Comma || u[j0] is RBrace);
        lemma_scan_type_transfer(tyc, 0, 0, ty.len() as int, u, p + 2);
        assert(spec_scan_type(u, p + 2, 0) == Ok::<int, ErrV>(j0));
        assert(u.subrange(p + 2, j0) =~= ty);
        assert(spec_parse_field(u, p) == Ok::<(FieldV, int), ErrV>((f0, j0)));
        if fs.len() == 1 {
            if trailing {
                assert(u[j0] == body[j0 - p] && body[j0 - p] == Tok::Comma);
                assert(u[j0 + 1] is RBrace);
                assert(spec_parse_fields(u, j0 + 1)
                    == Ok::<(Seq<FieldV>, int), ErrV>((Seq::empty(), j0 + 2)));
                assert(seq![f0] + Seq::<FieldV>::empty() =~= fs);
            } else {
                assert(j0 == p + blen);
                assert(u[j0] is RBrace);
                assert(seq![f0] =~= fs);
            }
        } else {
            let rest = fs.skip(1);
            assert(body == ift + seq![Tok::Comma] + in_fields_toks(rest, trailing));
            assert(u[j0] == body[j0 - p] && body[j0 - p] == Tok::Comma);
            let p2 = j0 + 1;
            let rbody = in_fields_toks(rest, trailing);
            let rlen = rbody.len() as int;
            assert forall|m: int| 0 <= m < rlen implies #[trigger] rbody[m]
                == u.subrange(p2, p2 + rlen)[m] by {
                assert(body[p2 + m - p] == rbody[m]);
                assert(u[p2 + m] == body[p2 + m - p]);
            }
            assert(u.subrange(p2, p2 + rlen) =~= rbody);
            assert(forall|m: int| 0 <= m < rest.len() ==> wf_field(#[trigger] rest[m]));
            assert(p2 + rlen == p + blen);
            lemma_in_fields_parse(u, p2, rest, trailing);
            assert(seq![f0] + rest =~= fs);
        }
    }
}

/// An input visibility marker standing before the `struct` keyword parses to
/// itself.
proof fn lemma_vis_parses(u: Seq<Tok>, v: VisV)
    requires
        wf_vis(v),
        vis_toks(v, Policy::Preserve).len() < u.len(),
        u.subrange(0, vis_toks(v, Policy::Preserve).len() as int)
            == vis_toks(v, Policy::Preserve),
        u[vis_toks(v, Policy::Preserve).len() as int] is KwStruct,
    ensures
        spec_parse_vis(u, 0)
            == Ok::<(VisV, int), ErrV>((v, vis_toks(v, Policy::Preserve).len() as int)),
{
    let vl = vis_toks(v, Policy::Preserve).len() as int;
    assert forall|m: int| 0 <= m < vl implies #[trigger] u[m]
        == vis_toks(v, Policy::Preserve)[m] by {
        assert(u[m] == u.subrange(0, vl)[m]);
    }
    match v {
        VisV::Inherited => {},
        VisV::Public => {
            assert(u[0] == Tok::KwPub);
        },
        VisV::Restricted(inner) => {
            assert(u[0] == Tok::KwPub && u[1] == Tok::LParen);
            assert(forall|m: int| 2 <= m < 2 + inner.len() ==> #[trigger] u[m] == inner[m - 2]);
            assert(u[2 + inner.len() as int] == Tok::RParen);
            lemma_scan_paren_finds(u, 2, 2 + inner.len() as int);
            assert(u.subrange(2, 2 + inner.len() as int) =~= inner);
        },
    }
}

/// Completeness: every well-formed declaration, rendered as input, parses
/// successfully to exactly its own visibility, name and fields — success is
/// owed on the whole language the grammar describes.
pub proof fn lemma_valid_decl_parses(v: VisV, name: String, fs: Seq<FieldV>, trailing: bool)
    requires
        wf_vis(v),
        forall|m: int| 0 <= m < fs.len() ==> wf_field(#[trigger] fs[m]),
    ensures
        spec_parse(in_decl_toks(v, name, fs, trailing))
            == Ok::<DeclV, ErrV>(DeclV { vis: v, name, fields: fs }),
{
    let u = in_decl_toks(v, name, fs, trailing);
    let vl = vis_toks(v, Policy::Preserve).len() as int;
    let blen = in_fields_toks(fs, trailing).len() as int;
    assert(u.len() == vl + 3 + blen + 1);
    assert(u[vl] == Tok::KwStruct);
    assert(u.subrange(0, vl) =~= vis_toks(v, Policy::Preserve));
    lemma_vis_parses(u, v);
    assert(u[vl + 1] == Tok::Ident(name));
    assert(u[vl + 2] == Tok::LBrace);
    let p = vl + 3;
    assert forall|m: int| 0 <= m < blen implies #[trigger] in_fields_toks(fs, trailing)[m]
        == u.subrange(p, p + blen)[m] by {
        assert(u[p + m] == in_fields_toks(fs, trailing)[m]);
    }
    assert(u.subrange(p, p + blen) =~= in_fields_toks(fs, trailing));
    assert(u[p + blen] == Tok::RBrace);
    lemma_in_fields_parse(u, p, fs, trailing);
}

/// Trailing-comma tolerance: a field list ending in a comma before the closing
/// brace parses identically to the same list without that comma — the same
/// declaration comes back either way.
pub proof fn lemma_trailing_comma(v: VisV, name: String, fs: Seq<FieldV>)
    requires
        wf_vis(v),
        forall|m: int| 0 <= m < fs.len() ==> wf_field(#[trigger] fs[m]),
    ensures
        spec_parse(in_decl_toks(v, name, fs, true))
            == spec_parse(in_decl_toks(v, name, fs, false)),
        spec_parse(in_decl_toks(v, name, fs, true))
            == Ok::<DeclV, ErrV>(DeclV { vis: v, name, fields: fs }),
{
    lemma_valid_decl_parses(v, name, fs, true);
    lemma_valid_decl_parses(v, name, fs, false);
}

// ---------------------------------------------------------------------------
// Failure on structural violation.
// ---------------------------------------------------------------------------

/// A field whose name is not followed by its colon is a syntax error at the
/// token after the name.
pub proof fn lemma_missing_colon(t: Seq<Tok>, i: int)
    requires
        0 <= i < t.len(),
        t[i] is Ident,
        i + 1 < t.len() ==> !(t[i + 1] is Colon),
    ensures
        spec_parse_field(t, i) is Err,
{
}

/// A field whose colon is directly followed by the separating comma or the
/// closing brace has no type: a syntax error at that token.
pub proof fn lemma_missing_type(t: Seq<Tok>, i: int)
    requires
        0 <= i,
        i + 2 < t.len(),
        t[i] is Ident,
        t[i + 1] is Colon,
        t[i + 2] is Comma || t[i + 2] is RBrace,
    ensures
        spec_parse_field(t, i)
            == Err::<(FieldV, int), ErrV>(ErrV { pos: i + 2, expected: Expected::TypeExpr }),
{
}

/// An input whose field list never closes — no `}` anywhere after the opening
/// brace — is a syntax error, wherever the fields themselves end.
pub proof fn lemma_missing_close_brace(t: Seq<Tok>, i: int)
    requires
        0 <= i,
        forall|m: int| i <= m < t.len() ==> !(t[m] is RBrace),
    ensures
        spec_parse_fields(t, i) is Err,
    decreases t.len() - i,
{
    if i < t.len() {
        match spec_parse_field(t, i) {
            Err(_) => {},
            Ok((f, j)) => {
                lemma_parse_field_ok(t, i, f, j);
                lemma_missing_close_brace(t, j + 1);
            },
        }
    }
}

/// A declaration whose keyword is not followed by the aggregate's name is a
/// syntax error at the token after the keyword.
pub proof fn lemma_missing_name(t: Seq<Tok>, i: int, v: VisV, j: int)
    requires
        spec_parse_vis(t, i) == Ok::<(VisV, int), ErrV>((v, j)),
        0 <= j < t.len(),
        t[j] is KwStruct,
        j + 1 < t.len() ==> !(t[j + 1] is Ident),
    ensures
        spec_parse_decl(t, i)
            == Err::<(DeclV, int), ErrV>(ErrV { pos: j + 1, expected: Expected::Identifier }),
{
}

/// Every component failure is the failure of the whole parse, unchanged: the
/// first error is the only one reported, and no tokens are emitted for it.
pub proof fn lemma_error_propagates(t: Seq<Tok>, e: ErrV)
    requires
        spec_parse_decl(t, 0) == Err::<(DeclV, int), ErrV>(e),
    ensures
        spec_parse(t) == Err::<DeclV, ErrV>(e),
{
}

} // verus!
