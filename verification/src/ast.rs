use vstd::prelude::*;

use crate::token::Tok;

verus! {

/// One parsed field: exactly `name : type`.
///
/// The type is an opaque, unparsed span of tokens, copied through unchanged and
/// never interpreted.
#[derive(Debug, PartialEq, Eq)]
pub struct Field {
    pub name: String,
    pub ty: Vec<Tok>,
}

/// The mathematical model of a field.
pub struct FieldV {
    pub name: String,
    pub ty: Seq<Tok>,
}

impl View for Field {
    type V = FieldV;

    open spec fn view(&self) -> FieldV {
        FieldV { name: self.name, ty: self.ty@ }
    }
}

/// The model of a sequence of fields.
pub open spec fn fields_view(fs: Seq<Field>) -> Seq<FieldV> {
    fs.map_values(|f: Field| f@)
}

/// The visibility marker of an aggregate.
#[derive(Debug, PartialEq, Eq)]
pub enum Vis {
    /// No marker was written: the aggregate is private to its defining scope.
    Inherited,
    /// A bare `pub`: fully visible.
    Public,
    /// `pub ( ... )`: visible to the scope the tokens between the parentheses
    /// name, for example `pub(crate)`. The tokens are kept verbatim.
    Restricted(Vec<Tok>),
}

/// The mathematical model of a visibility marker.
pub enum VisV {
    Inherited,
    Public,
    Restricted(Seq<Tok>),
}

impl View for Vis {
    type V = VisV;

    open spec fn view(&self) -> VisV {
        match self {
            Vis::Inherited => VisV::Inherited,
            Vis::Public => VisV::Public,
            Vis::Restricted(v) => VisV::Restricted(v@),
        }
    }
}

/// One parsed aggregate declaration: an optional visibility marker, a name,
/// and an ordered field list. Field order is significant and preserved.
#[derive(Debug, PartialEq, Eq)]
pub struct Decl {
    pub vis: Vis,
    pub name: String,
    pub fields: Vec<Field>,
}

/// The mathematical model of a declaration.
pub struct DeclV {
    pub vis: VisV,
    pub name: String,
    pub fields: Seq<FieldV>,
}

impl View for Decl {
    type V = DeclV;

    open spec fn view(&self) -> DeclV {
        DeclV { vis: self.vis@, name: self.name, fields: fields_view(self.fields@) }
    }
}

/// The visibility policy of the emitter, chosen at the call site.
#[derive(Debug, PartialEq, Eq, Clone, Copy)]
pub enum Policy {
    /// The aggregate keeps whatever visibility marker the input carried,
    /// including none at all. Only the fields become fully visible.
    Preserve,
    /// The aggregate's visibility is unconditionally replaced by `pub`,
    /// whatever the input carried.
    Force,
}

/// The construct a syntax error expected at the offending position.
#[derive(Debug, PartialEq, Eq, Clone, Copy)]
pub enum Expected {
    /// An identifier: a field name or the aggregate's name.
    Identifier,
    /// The `:` between a field name and its type.
    Colon,
    /// A nonempty, bracket-balanced type expression.
    TypeExpr,
    /// The `struct` keyword.
    KwStruct,
    /// The `{` opening the field list.
    OpenBrace,
    /// The `}` closing the field list.
    CloseBrace,
    /// The `)` closing a restricted-visibility marker.
    CloseParen,
    /// Nothing: the declaration was complete but tokens followed it.
    EndOfInput,
}

/// The single kind of diagnostic: the position of the offending token (the
/// input length when the input ended too early) and what was expected there.
#[derive(Debug, PartialEq, Eq, Clone, Copy)]
pub struct SyntaxError {
    pub pos: usize,
    pub expected: Expected,
}

/// The mathematical model of a syntax error.
pub struct ErrV {
    pub pos: int,
    pub expected: Expected,
}

impl View for SyntaxError {
    type V = ErrV;

    open spec fn view(&self) -> ErrV {
        ErrV { pos: self.pos as int, expected: self.expected }
    }
}

} // verus!
