use vstd::prelude::*;

use crate::ast::{Decl, DeclV, FieldV, Policy, Vis, VisV};
use crate::token::{Tok, tok_dup};

verus! {

// ---------------------------------------------------------------------------
// The emitted declaration, as spec functions over the parsed model.
// ---------------------------------------------------------------------------

/// The visibility tokens the emitted aggregate carries: under Force always a
/// bare `pub`; under Preserve exactly the marker the input carried.
pub open spec fn vis_toks(v: VisV, policy: Policy) -> Seq<Tok> {
    match policy {
        Policy::Force => seq![Tok::KwPub],
        Policy::Preserve => match v {
            VisV::Inherited => Seq::empty(),
            VisV::Public => seq![Tok::KwPub],
            VisV::Restricted(inner) => seq![Tok::KwPub, Tok::LParen] + inner + seq![Tok::RParen],
        },
    }
}

/// The tokens one emitted field contributes: the full-visibility marker, the
/// field's name, its colon, its type span verbatim, and a separating comma.
pub open spec fn field_toks(f: FieldV) -> Seq<Tok> {
    seq![Tok::KwPub, Tok::Ident(f.name), Tok::Colon] + f.ty + seq![Tok::Comma]
}

/// The tokens of the whole emitted field list, in the fields' own order.
pub open spec fn fields_toks(fs: Seq<FieldV>) -> Seq<Tok>
    decreases fs.len(),
{
    if fs.len() == 0 {
        Seq::empty()
    } else {
        field_toks(fs[0]) + fields_toks(fs.skip(1))
    }
}

/// The whole emitted declaration: visibility per policy, the `struct` keyword,
/// the aggregate's name, and the braced field list.
pub open spec fn emit_toks(d: DeclV, policy: Policy) -> Seq<Tok> {
    vis_toks(d.vis, policy) + seq![Tok::KwStruct, Tok::Ident(d.name), Tok::LBrace]
        + fields_toks(d.fields) + seq![Tok::RBrace]
}

/// Taking one more field extends the emitted field list by that field's
/// tokens.
pub proof fn lemma_fields_toks_snoc(fs: Seq<FieldV>, k: int)
    requires
        0 <= k < fs.len(),
    ensures
        fields_toks(fs.take(k + 1)) == fields_toks(fs.take(k)) + field_toks(fs[k]),
    decreases k,
{
    if k == 0 {
        assert(fs.take(0) =~= Seq::<FieldV>::empty());
        assert(fs.take(1) =~= seq![fs[0]]);
        assert(fs.take(1).skip(1) =~= Seq::<FieldV>::empty());
        assert(fields_toks(fs.take(1)) == field_toks(fs[0]) + fields_toks(Seq::<FieldV>::empty()));
        assert(field_toks(fs[0]) + Seq::<Tok>::empty() =~= field_toks(fs[0]));
        assert(Seq::<Tok>::empty() + field_toks(fs[0]) =~= field_toks(fs[0]));
    } else {
        let tail = fs.skip(1);
        assert(fs.take(k + 1).skip(1) =~= tail.take(k));
        assert(fs.take(k).skip(1) =~= tail.take(k - 1));
        lemma_fields_toks_snoc(tail, k - 1);
        assert(fs.take(k + 1)[0] == fs[0]);
        assert(fs.take(k)[0] == fs[0]);
        assert(fields_toks(fs.take(k + 1))
            == field_toks(fs[0]) + (fields_toks(tail.take(k - 1)) + field_toks(tail[k - 1])));
        assert(field_toks(fs[0]) + (fields_toks(tail.take(k - 1)) + field_toks(tail[k - 1]))
            =~= (field_toks(fs[0]) + fields_toks(tail.take(k - 1))) + field_toks(tail[k - 1]));
        assert(tail[k - 1] == fs[k]);
    }
}

/// Splitting a field list splits its emitted tokens at the matching point.
pub proof fn lemma_fields_toks_split(fs: Seq<FieldV>, k: int)
    requires
        0 <= k <= fs.len(),
    ensures
        fields_toks(fs) == fields_toks(fs.take(k)) + fields_toks(fs.skip(k)),
    decreases k,
{
    if k == 0 {
        assert(fs.take(0) =~= Seq::<FieldV>::empty());
        assert(fs.skip(0) =~= fs);
        assert(fields_toks(fs.take(0)) + fields_toks(fs) =~= fields_toks(fs));
    } else {
        lemma_fields_toks_snoc(fs, k - 1);
        lemma_fields_toks_split(fs, k - 1);
        assert(fs.skip(k - 1).len() > 0);
        assert(fs.skip(k - 1)[0] == fs[k - 1]);
        assert(fs.skip(k - 1).skip(1) =~= fs.skip(k));
        assert(fields_toks(fs.skip(k - 1)) == field_toks(fs[k - 1]) + fields_toks(fs.skip(k)));
        assert((fields_toks(fs.take(k - 1)) + field_toks(fs[k - 1])) + fields_toks(fs.skip(k))
            =~= fields_toks(fs.take(k - 1)) + (field_toks(fs[k - 1]) + fields_toks(fs.skip(k))));
    }
}

// ---------------------------------------------------------------------------
// The executable emitter.
// ---------------------------------------------------------------------------

/// Appends a copy of every token of `src` to `out`.
fn push_all(out: &mut Vec<Tok>, src: &Vec<Tok>)
    ensures
        final(out)@ == old(out)@ + src@,
{
    let mut k: usize = 0;
    while k < src.len()
        invariant
            k <= src@.len(),
            out@ == old(out)@ + src@.subrange(0, k as int),
        decreases src@.len() - k,
    {
        out.push(tok_dup(&src[k]));
        proof {
            assert(src@.subrange(0, k + 1 as int)
                =~= src@.subrange(0, k as int).push(src@[k as int]));
            assert(old(out)@ + src@.subrange(0, k as int).push(src@[k as int])
                =~= (old(out)@ + src@.subrange(0, k as int)).push(src@[k as int]));
        }
        k = k + 1;
    }
    proof {
        assert(src@.subrange(0, src@.len() as int) =~= src@);
    }
}

/// Emits the declaration `d` under `policy`: the same aggregate with the same
/// name and the same fields in the same order, every field now carrying the
/// full-visibility marker, the aggregate's own marker chosen by the policy.
/// Emission never fails and does not change `d`.
pub fn emit(d: &Decl, policy: Policy) -> (out: Vec<Tok>)
    ensures
        out@ == emit_toks(d@, policy),
{
    let mut out: Vec<Tok> = Vec::new();
    match policy {
        Policy::Force => {
            out.push(Tok::KwPub);
        },
        Policy::Preserve => {
            match &d.vis {
                Vis::Inherited => {},
                Vis::Public => {
                    out.push(Tok::KwPub);
                },
                Vis::Restricted(inner) => {
                    out.push(Tok::KwPub);
                    out.push(Tok::LParen);
                    push_all(&mut out, inner);
                    out.push(Tok::RParen);
                },
            }
        },
    }
    proof {
        assert(out@ =~= vis_toks(d@.vis, policy));
    }
    out.push(Tok::KwStruct);
    out.push(Tok::Ident(d.name.clone()));
    out.push(Tok::LBrace);
    let ghost head = vis_toks(d@.vis, policy)
        + seq![Tok::KwStruct, Tok::Ident(d@.name), Tok::LBrace];
    proof {
        assert(out@ =~= head);
    }
    let mut fi: usize = 0;
    while fi < d.fields.len()
        invariant
            fi <= d.fields@.len(),
            d@.fields.len() == d.fields@.len(),
            head == vis_toks(d@.vis, policy)
                + seq![Tok::KwStruct, Tok::Ident(d@.name), Tok::LBrace],
            out@ == head + fields_toks(d@.fields.take(fi as int)),
        decreases d.fields@.len() - fi,
    {
        let ghost before = out@;
        let f = &d.fields[fi];
        out.push(Tok::KwPub);
        out.push(Tok::Ident(f.name.clone()));
        out.push(Tok::Colon);
        push_all(&mut out, &f.ty);
        out.push(Tok::Comma);
        proof {
            assert(d@.fields[fi as int] == d.fields@[fi as int]@);
            assert(out@ =~= before + field_toks(d@.fields[fi as int]));
            lemma_fields_toks_snoc(d@.fields, fi as int);
            assert(out@ =~= head + fields_toks(d@.fields.take(fi + 1 as int)));
        }
        fi = fi + 1;
    }
    proof {
        assert(d@.fields.take(d.fields@.len() as int) =~= d@.fields);
    }
    out.push(Tok::RBrace);
    proof {
        assert(out@ =~= emit_toks(d@, policy));
    }
    out
}

} // verus!
