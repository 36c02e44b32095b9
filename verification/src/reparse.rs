use vstd::prelude::*;

use crate::ast::{DeclV, ErrV, Expected, FieldV, Policy, VisV};
use crate::emit::{emit_toks, field_toks, fields_toks, vis_toks};
use crate::parser::{
    lemma_parse_field_ok, lemma_scan_paren_ok, lemma_scan_type_ok, spec_parse, spec_parse_decl,
    spec_parse_field, spec_parse_fields, spec_parse_vis, spec_scan_paren, spec_scan_type,
};
use crate::token::Tok;

verus! {

// ---------------------------------------------------------------------------
// The output grammar.
//
// The host re-reads the emitted tokens as an ordinary declaration, whose
// grammar differs from this library's input grammar in exactly one point:
// a field may carry the full-visibility marker the emitter writes. These
// spec functions state that reading; nothing executable parses the output.
// ---------------------------------------------------------------------------

/// Parses one output field at `i`: as an input field, behind an optional
/// full-visibility marker.
pub open spec fn spec_parse_field_out(t: Seq<Tok>, i: int) -> Result<(FieldV, int), ErrV> {
    if 0 <= i < t.len() && t[i] is KwPub {
        spec_parse_field(t, i + 1)
    } else {
        spec_parse_field(t, i)
    }
}

/// Parses an output field list at `i` through the closing brace, exactly as
/// the input field list is parsed but with the marker admitted on each field.
pub open spec fn spec_parse_fields_out(t: Seq<Tok>, i: int) -> Result<(Seq<FieldV>, int), ErrV>
    decreases t.len() - i,
{
    if i < 0 || i >= t.len() {
        Err(ErrV { pos: t.len() as int, expected: Expected::CloseBrace })
    } else if t[i] is RBrace {
        Ok((Seq::empty(), i + 1))
    } else {
        match spec_parse_field_out(t, i) {
            Err(e) => Err(e),
            Ok((f, j)) => {
                // As in the input grammar, a successful field parse lands on a
                // `,` or `}` further right; these two arms are unreachable and
                // only settle termination.
                if j <= i || j >= t.len() {
                    Err(ErrV { pos: t.len() as int, expected: Expected::CloseBrace })
                } else if !(t[j] is Comma || t[j] is RBrace) {
                    Err(ErrV { pos: j, expected: Expected::CloseBrace })
                } else if t[j] is RBrace {
                    Ok((seq![f], j + 1))
                } else {
                    match spec_parse_fields_out(t, j + 1) {
                        Err(e) => Err(e),
                        Ok((fs, k)) => Ok((seq![f] + fs, k)),
                    }
                }
            },
        }
    }
}

/// Parses one whole output declaration at `i`.
pub open spec fn spec_parse_decl_out(t: Seq<Tok>, i: int) -> Result<(DeclV, int), ErrV> {
    match spec_parse_vis(t, i) {
        Err(e) => Err(e),
        Ok((vis, j)) => {
            if j >= t.len() || !(t[j] is KwStruct) {
                Err(ErrV { pos: j, expected: Expected::KwStruct })
            } else if j + 1 >= t.len() || !(t[j + 1] is Ident) {
                Err(ErrV { pos: j + 1, expected: Expected::Identifier })
            } else if j + 2 >= t.len() || !(t[j + 2] is LBrace) {
                Err(ErrV { pos: j + 2, expected: Expected::OpenBrace })
            } else {
                match spec_parse_fields_out(t, j + 3) {
                    Err(e) => Err(e),
                    Ok((fs, k)) => Ok(
                        (DeclV { vis, name: t[j + 1]->Ident_0, fields: fs }, k),
                    ),
                }
            }
        },
    }
}

/// Parses a whole output token stream as exactly one declaration.
pub open spec fn spec_parse_out(t: Seq<Tok>) -> Result<DeclV, ErrV> {
    match spec_parse_decl_out(t, 0) {
        Err(e) => Err(e),
        Ok((d, k)) => {
            if k == t.len() {
                Ok(d)
            } else {
                Err(ErrV { pos: k, expected: Expected::EndOfInput })
            }
        },
    }
}

// ---------------------------------------------------------------------------
// Scanning depends only on the scanned span.
// ---------------------------------------------------------------------------

/// A type scan that succeeded in one stream succeeds wherever the same span
/// reappears followed by any terminator, ending at the matching position.
pub proof fn lemma_scan_type_transfer(t: Seq<Tok>, i: int, depth: int, j: int, u: Seq<Tok>, p: int)
    requires
        spec_scan_type(t, i, depth) == Ok::<int, ErrV>(j),
        0 <= i,
        0 <= p,
        p + (j - i) < u.len(),
        forall|m: int| p <= m < p + (j - i) ==> #[trigger] u[m] == t[i + (m - p)],
        u[p + (j - i)] is Comma || u[p + (j - i)] is RBrace,
    ensures
        spec_scan_type(u, p, depth) == Ok::<int, ErrV>(p + (j - i)),
    decreases j - i,
{
    lemma_scan_type_ok(t, i, depth, j);
    if depth == 0 && (t[i] is Comma || t[i] is RBrace) {
        // The scan ended at once: j == i, and u[p] carries a terminator too.
    } else if t[i] is Lt || t[i] is LParen {
        lemma_scan_type_ok(t, i + 1, depth + 1, j);
        assert(u[p] == t[i]);
        lemma_scan_type_transfer(t, i + 1, depth + 1, j, u, p + 1);
    } else if t[i] is Gt || t[i] is RParen {
        lemma_scan_type_ok(t, i + 1, depth - 1, j);
        assert(u[p] == t[i]);
        lemma_scan_type_transfer(t, i + 1, depth - 1, j, u, p + 1);
    } else {
        lemma_scan_type_ok(t, i + 1, depth, j);
        assert(u[p] == t[i]);
        lemma_scan_type_transfer(t, i + 1, depth, j, u, p + 1);
    }
}

/// Up to the `)` it finds, a paren scan saw no other `)`.
pub proof fn lemma_scan_paren_first(t: Seq<Tok>, i: int, j: int)
    requires
        0 <= i,
        spec_scan_paren(t, i) == Ok::<int, ErrV>(j),
    ensures
        forall|m: int| i <= m < j ==> !(t[m] is RParen),
    decreases t.len() - i,
{
    lemma_scan_paren_ok(t, i, j);
    if !(t[i] is RParen) {
        lemma_scan_paren_first(t, i + 1, j);
    }
}

// ---------------------------------------------------------------------------
// What a successful parse guarantees of its result: every piece re-scans
// cleanly on its own.
// ---------------------------------------------------------------------------

/// A field the parser can have produced: its type span is nonempty and scans
/// to exactly its own end when followed by a terminator.
pub open spec fn wf_field(f: FieldV) -> bool {
    &&& f.ty.len() >= 1
    &&& spec_scan_type(f.ty + seq![Tok::Comma], 0, 0) == Ok::<int, ErrV>(f.ty.len() as int)
}

/// A visibility marker the parser can have produced: a restricted span holds
/// no closing parenthesis of its own.
pub open spec fn wf_vis(v: VisV) -> bool {
    v matches VisV::Restricted(inner)
        ==> forall|m: int| 0 <= m < inner.len() ==> !(inner[m] is RParen)
}

/// A declaration the parser can have produced.
pub open spec fn wf_decl(d: DeclV) -> bool {
    &&& wf_vis(d.vis)
    &&& forall|k: int| 0 <= k < d.fields.len() ==> wf_field(#[trigger] d.fields[k])
}

/// Every parsed field is well formed.
pub proof fn lemma_parse_field_wf(t: Seq<Tok>, i: int, f: FieldV, j: int)
    requires
        0 <= i,
        spec_parse_field(t, i) == Ok::<(FieldV, int), ErrV>((f, j)),
    ensures
        wf_field(f),
{
    lemma_parse_field_ok(t, i, f, j);
    let u = f.ty + seq![Tok::Comma];
    assert forall|m: int| 0 <= m < j - (i + 2) implies #[trigger] u[m] == t[i + 2 + (m - 0)] by {
        assert(u[m] == f.ty[m]);
        assert(f.ty[m] == t.subrange(i + 2, j)[m]);
    }
    assert(u[j - (i + 2)] is Comma);
    lemma_scan_type_transfer(t, i + 2, 0, j, u, 0);
}

/// Every field of a parsed field list is well formed.
pub proof fn lemma_parse_fields_wf(t: Seq<Tok>, i: int, fs: Seq<FieldV>, k: int)
    requires
        0 <= i,
        spec_parse_fields(t, i) == Ok::<(Seq<FieldV>, int), ErrV>((fs, k)),
    ensures
        forall|m: int| 0 <= m < fs.len() ==> wf_field(#[trigger] fs[m]),
    decreases t.len() - i,
{
    if i < t.len() && !(t[i] is RBrace) {
        if let Ok((f, j)) = spec_parse_field(t, i) {
            lemma_parse_field_ok(t, i, f, j);
            lemma_parse_field_wf(t, i, f, j);
            if t[j] is RBrace {
                assert(fs =~= seq![f]);
            } else {
                if let Ok((rest, k2)) = spec_parse_fields(t, j + 1) {
                    lemma_parse_fields_wf(t, j + 1, rest, k2);
                    assert(forall|m: int| 1 <= m < fs.len() ==> #[trigger] fs[m] == rest[m - 1]);
                }
            }
        }
    }
}

/// Every declaration the parser accepts is well formed.
pub proof fn lemma_parse_wf(t: Seq<Tok>, d: DeclV)
    requires
        spec_parse(t) == Ok::<DeclV, ErrV>(d),
    ensures
        wf_decl(d),
{
    if let Ok((d0, k)) = spec_parse_decl(t, 0) {
        if let Ok((vis, j)) = spec_parse_vis(t, 0) {
            if 0 < t.len() && t[0] is KwPub && 1 < t.len() && t[1] is LParen {
                if let Ok(p) = spec_scan_paren(t, 2) {
                    lemma_scan_paren_ok(t, 2, p);
                    lemma_scan_paren_first(t, 2, p);
                    assert(forall|m: int| 0 <= m < t.subrange(2, p).len()
                        ==> !(#[trigger] t.subrange(2, p)[m] is RParen));
                }
            }
            if let Ok((fs, k2)) = spec_parse_fields(t, j + 3) {
                lemma_parse_fields_wf(t, j + 3, fs, k2);
            }
        }
    }
}

// ---------------------------------------------------------------------------
// The emitted output re-parses to the same declaration.
// ---------------------------------------------------------------------------

/// An emitted field list, followed by its closing brace, reads back under the
/// output grammar as exactly the fields it was emitted from.
#[verifier::rlimit(60)]
pub proof fn lemma_fields_reparse(u: Seq<Tok>, p: int, fs: Seq<FieldV>)
    requires
        0 <= p,
        forall|m: int| 0 <= m < fs.len() ==> wf_field(#[trigger] fs[m]),
        p + fields_toks(fs).len() < u.len(),
        u.subrange(p, p + fields_toks(fs).len() as int) == fields_toks(fs),
        u[p + fields_toks(fs).len()] is RBrace,
    ensures
        spec_parse_fields_out(u, p)
            == Ok::<(Seq<FieldV>, int), ErrV>((fs, p + fields_toks(fs).len() + 1)),
    decreases fs.len(),
{
    let flen = fields_toks(fs).len() as int;
    if fs.len() == 0 {
        assert(u[p] is RBrace);
        assert(Seq::<FieldV>::empty() =~= fs);
    } else {
        let f0 = fs[0];
        let rest = fs.skip(1);
        let ft0 = field_toks(f0);
        let ty = f0.ty;
        assert(fields_toks(fs) == ft0 + fields_toks(rest));
        assert forall|m: int| p <= m < p + flen implies #[trigger] u[m]
            == fields_toks(fs)[m - p] by {
            assert(u[m] == u.subrange(p, p + flen)[m - p]);
        }
        assert(ft0.len() == 4 + ty.len());
        assert(u[p] == ft0[0] && ft0[0] == Tok::KwPub);
        assert(u[p + 1] == ft0[1] && ft0[1] == Tok::Ident(f0.name));
        assert(u[p + 2] == ft0[2] && ft0[2] == Tok::Colon);
        let j0 = p + 3 + ty.len() as int;
        let tyc = ty + seq![Tok::Comma];
        assert forall|m: int| p + 3 <= m < p + 3 + (tyc.len() - 0) implies #[trigger] u[m]
            == tyc[0 + (m - (p + 3))] by {
            assert(u[m] == fields_toks(fs)[m - p]);
            assert(fields_toks(fs)[m - p] == ft0[m - p]);
            if m - (p + 3) < ty.len() {
                assert(ft0[m - p] == ty[m - p - 3]);
                assert(tyc[m - (p + 3)] == ty[m - p - 3]);
            } else {
                assert(ft0[m - p] == Tok::Comma);
                assert(tyc[m - (p + 3)] == Tok::Comma);
            }
        }
        assert(u[j0] == tyc[ty.len() as int] && tyc[ty.len() as int] == Tok::Comma);
        lemma_scan_type_transfer(tyc, 0, 0, ty.len() as int, u, p + 3);
        assert(spec_scan_type(u, p + 3, 0) == Ok::<int, ErrV>(j0));
        assert(u.subrange(p + 3, j0) =~= ty);
        assert(spec_parse_field(u, p + 1) == Ok::<(FieldV, int), ErrV>((f0, j0)));
        assert(spec_parse_field_out(u, p) == Ok::<(FieldV, int), ErrV>((f0, j0)));
        // The rest of the list sits right after the comma.
        let p2 = p + ft0.len() as int;
        let rlen = fields_toks(rest).len() as int;
        assert forall|m: int| 0 <= m < rlen implies #[trigger] fields_toks(rest)[m]
            == u.subrange(p2, p2 + rlen)[m] by {
            assert(fields_toks(fs)[m + ft0.len()] == fields_toks(rest)[m]);
            assert(u[p2 + m] == fields_toks(fs)[p2 + m - p]);
        }
        assert(u.subrange(p2, p2 + rlen) =~= fields_toks(rest));
        assert(forall|m: int| 0 <= m < rest.len() ==> wf_field(#[trigger] rest[m]));
        assert(p2 + rlen == p + flen);
        assert(u[p2 + rlen] is RBrace);
        lemma_fields_reparse(u, p2, rest);
        assert(j0 + 1 == p2);
        assert(seq![f0] + rest =~= fs);
        assert(!(u[p] is RBrace));
        assert(spec_parse_fields_out(u, p)
            == Ok::<(Seq<FieldV>, int), ErrV>((fs, p + flen + 1)));
    }
}

/// The visibility the output carries under each policy, as the parser reads
/// it back: Force always yields the bare full-visibility marker; Preserve
/// yields exactly what the input carried.
pub open spec fn reparsed_vis(v: VisV, policy: Policy) -> VisV {
    match policy {
        Policy::Force => VisV::Public,
        Policy::Preserve => v,
    }
}

/// A whole emitted declaration reads back under the output grammar as the
/// same declaration: the same name, the same fields in the same order, and
/// the aggregate visibility the policy chose.
pub proof fn lemma_emit_reparses(d: DeclV, policy: Policy)
    requires
        wf_decl(d),
    ensures
        spec_parse_out(emit_toks(d, policy))
            == Ok::<DeclV, ErrV>(
            DeclV { vis: reparsed_vis(d.vis, policy), name: d.name, fields: d.fields },
        ),
{
    let u = emit_toks(d, policy);
    let vl = vis_toks(d.vis, policy).len() as int;
    let flen = fields_toks(d.fields).len() as int;
    assert(u.len() == vl + 3 + flen + 1);
    if policy is Preserve && d.vis is Restricted {
        let inner = d.vis->Restricted_0;
        assert(u[0] == Tok::KwPub && u[1] == Tok::LParen);
        assert forall|m: int| 2 <= m < 2 + inner.len() implies #[trigger] u[m]
            == inner[m - 2] by {
            assert(vis_toks(d.vis, policy)[m] == inner[m - 2]);
        }
        assert(u[2 + inner.len() as int] == Tok::RParen);
        assert(forall|m: int| 2 <= m < 2 + inner.len() ==> !(#[trigger] u[m] is RParen));
        crate::laws::lemma_scan_paren_finds(u, 2, 2 + inner.len() as int);
        assert(u.subrange(2, 2 + inner.len() as int) =~= inner);
        assert(spec_parse_vis(u, 0)
            == Ok::<(VisV, int), ErrV>((VisV::Restricted(inner), vl)));
    } else if policy is Preserve && d.vis is Inherited {
        assert(u[0] == Tok::KwStruct);
        assert(spec_parse_vis(u, 0) == Ok::<(VisV, int), ErrV>((VisV::Inherited, 0)));
    } else {
        assert(u[0] == Tok::KwPub && u[1] == Tok::KwStruct);
        assert(spec_parse_vis(u, 0) == Ok::<(VisV, int), ErrV>((VisV::Public, 1)));
    }
    assert(u[vl] == Tok::KwStruct);
    assert(u[vl + 1] == Tok::Ident(d.name));
    assert(u[vl + 2] == Tok::LBrace);
    assert forall|m: int| 0 <= m < flen implies #[trigger] fields_toks(d.fields)[m]
        == u.subrange(vl + 3, vl + 3 + flen)[m] by {
        assert(u[vl + 3 + m] == fields_toks(d.fields)[m]);
    }
    assert(u.subrange(vl + 3, vl + 3 + flen) =~= fields_toks(d.fields));
    assert(u[vl + 3 + flen] == Tok::RBrace);
    lemma_fields_reparse(u, vl + 3, d.fields);
    assert(spec_parse_decl_out(u, 0) == Ok::<(DeclV, int), ErrV>(
        (DeclV { vis: reparsed_vis(d.vis, policy), name: d.name, fields: d.fields },
        vl + 3 + flen + 1),
    ));
}

/// Idempotence under re-application: for any input the library accepts, the
/// emitted output — read back as the host reads it — is a declaration whose
/// fields are already all fully visible, and transforming it again under the
/// same policy reproduces the output token for token.
pub proof fn lemma_pub_all_idempotent(t: Seq<Tok>, d: DeclV, policy: Policy)
    requires
        spec_parse(t) == Ok::<DeclV, ErrV>(d),
    ensures
        ({
            let out = emit_toks(d, policy);
            &&& spec_parse_out(out) is Ok
            &&& spec_parse_out(out)->Ok_0.name == d.name
            &&& spec_parse_out(out)->Ok_0.fields == d.fields
            &&& emit_toks(spec_parse_out(out)->Ok_0, policy) == out
        }),
{
    lemma_parse_wf(t, d);
    lemma_emit_reparses(d, policy);
}

} // verus!
