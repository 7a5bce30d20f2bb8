//! The structural description of a type declaration, as the generator
//! consumes it: plain values for the declaration's name, its fields and
//! their types, and the annotations attached to it.

use vstd::prelude::*;

verus! {

/// A source location, in whatever terms the host that built the
/// description chooses.  The generator never inspects it; it only carries
/// it into the error it reports, so that a diagnostic can point at the
/// responsible span.
#[derive(Clone, Copy, PartialEq, Eq, Structural, Debug)]
pub struct Span {
    pub id: usize,
}

/// A path-style type as the generator sees it: the path's segment names,
/// and the angle-bracketed type arguments of the final segment, each
/// argument kept as its source text.  The generator never looks inside an
/// argument; it only counts them and hands the first one on.
#[derive(Debug)]
pub struct TypeExpr {
    pub segments: Vec<String>,
    pub args: Vec<String>,
}

/// One field of a declaration: an optional name and its declared type.
#[derive(Debug)]
pub struct Field {
    pub name: Option<String>,
    pub ty: TypeExpr,
    pub span: Span,
}

/// The value carried by an annotation.
#[derive(Debug)]
pub enum AttrValue {
    /// A plain string-literal assignment `name = "literal"`, with the
    /// literal's own span.
    StrLit { value: String, value_span: Span },
    /// Any other shape.
    Other,
}

/// An annotation attached to a declaration: its name (the final segment
/// of its path) and its value.
#[derive(Debug)]
pub struct Attr {
    pub name: String,
    pub value: AttrValue,
    pub span: Span,
}

/// The structural description of one type declaration.
#[derive(Debug)]
pub struct TypeDecl {
    pub name: String,
    pub name_span: Span,
    pub fields: Vec<Field>,
    pub attrs: Vec<Attr>,
}

/// The segment names of a type, as sequences of characters.
pub open spec fn te_segments(t: TypeExpr) -> Seq<Seq<char>> {
    t.segments.deep_view()
}

/// The final segment's type arguments, as sequences of characters.
pub open spec fn te_args(t: TypeExpr) -> Seq<Seq<char>> {
    t.args.deep_view()
}

/// Copies a vector of strings; the copy holds the same text.
pub fn clone_strings(v: &Vec<String>) -> (r: Vec<String>)
    ensures
        r.deep_view() == v.deep_view(),
{
    let mut r: Vec<String> = Vec::new();
    let mut i: usize = 0;
    while i < v.len()
        invariant
            i <= v@.len(),
            r@.len() == i,
            forall|j: int| 0 <= j < i ==> r@[j]@ == #[trigger] v@[j]@,
        decreases v@.len() - i,
    {
        r.push(v[i].clone());
        i += 1;
    }
    proof {
        assert(r.deep_view() =~= v.deep_view());
    }
    r
}

/// Copies a type; the copy describes the same type.
pub fn clone_type_expr(t: &TypeExpr) -> (r: TypeExpr)
    ensures
        te_segments(r) == te_segments(*t),
        te_args(r) == te_args(*t),
{
    TypeExpr { segments: clone_strings(&t.segments), args: clone_strings(&t.args) }
}

} // verus!
