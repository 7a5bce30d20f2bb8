//! The generation pass: locate the item-bearing field, extract and
//! classify the `item_separator` annotation, and assemble the content of
//! the parsing routine to emit — or the error that names the offending
//! span.

use vstd::prelude::*;
use crate::decl::{Attr, AttrValue, Field, Span, TypeDecl, TypeExpr, clone_type_expr, te_args,
    te_segments};

verus! {

/// The separator the emitted routine splits on.
#[derive(Debug, Clone, PartialEq)]
pub enum Separator {
    /// A literal that denormalizes to exactly one character is carried as
    /// that character.
    Single(char),
    /// Any longer literal is carried exactly as written.
    Text(String),
}

/// The characters a separator stands for.
pub open spec fn sep_chars(sep: Separator) -> Seq<char> {
    match sep {
        Separator::Single(c) => seq![c],
        Separator::Text(t) => t@,
    }
}

/// The characters a separator stands for, as a vector.
pub fn sep_char_vec(sep: &Separator) -> (v: Vec<char>)
    ensures
        v@ == sep_chars(*sep),
{
    match sep {
        Separator::Single(c) => {
            let mut v: Vec<char> = Vec::new();
            v.push(*c);
            proof {
                assert(v@ =~= seq![*c]);
            }
            v
        },
        Separator::Text(t) => crate::split::chars_of(t.as_str()),
    }
}

/// A generation-time rejection, each with the source span a diagnostic
/// should point at.
#[derive(Debug, Clone, PartialEq)]
pub enum GenError {
    /// No field's type carries exactly one type argument; names the
    /// declaration.
    NoEligibleField { decl_name: String, span: Span },
    /// The declaration has no `item_separator` annotation.
    MissingSeparator { span: Span },
    /// The `item_separator` annotation is not a plain string-literal
    /// assignment; points at the annotation.
    MalformedSeparator { span: Span },
    /// The separator literal is empty; points at the literal.
    EmptySeparator { span: Span },
}

impl GenError {
    /// The diagnostic text for this error, for the host to report at the
    /// error's span.
    pub fn describe(&self) -> (m: String)
        ensures
            match *self {
                GenError::NoEligibleField { decl_name, .. } => m@ == "no eligible collection field in `"@
                    + decl_name@ + "`"@,
                GenError::MissingSeparator { .. } => m@ == "missing `item_separator` attribute"@,
                GenError::MalformedSeparator { .. } => m@
                    == "unexpected syntax in `item_separator` attribute"@,
                GenError::EmptySeparator { .. } => m@ == "the separator must not be empty"@,
            },
    {
        match self {
            GenError::NoEligibleField { decl_name, .. } => {
                let mut m = String::from_str("no eligible collection field in `");
                m.append(decl_name.as_str());
                m.append("`");
                m
            },
            GenError::MissingSeparator { .. } => String::from_str(
                "missing `item_separator` attribute",
            ),
            GenError::MalformedSeparator { .. } => String::from_str(
                "unexpected syntax in `item_separator` attribute",
            ),
            GenError::EmptySeparator { .. } => String::from_str(
                "the separator must not be empty",
            ),
        }
    }
}

/// The item-bearing field's full container type and its single type
/// argument, the item type.
#[derive(Debug)]
pub struct ItemBinding {
    pub container: TypeExpr,
    pub item: String,
}

/// The separator annotation's literal value, with the literal's span.
#[derive(Debug)]
pub struct SeparatorLiteral {
    pub value: String,
    pub span: Span,
}

/// The content of the parsing-routine definition the generator emits.
#[derive(Debug)]
pub struct GeneratedImpl {
    pub wrapper_name: String,
    pub container: TypeExpr,
    pub item: String,
    pub separator: Separator,
}

/// Holds when a field's type carries exactly one type argument.
pub open spec fn eligible_field(f: Field) -> bool {
    f.ty.args@.len() == 1
}

/// The index of the first eligible field at or after `i`, if any.
pub open spec fn first_eligible_from(fields: Seq<Field>, i: int) -> Option<int>
    decreases fields.len() - i,
{
    if i < 0 || i >= fields.len() {
        None
    } else if eligible_field(fields[i]) {
        Some(i)
    } else {
        first_eligible_from(fields, i + 1)
    }
}

/// The index of the first eligible field, if any.
pub open spec fn first_eligible(fields: Seq<Field>) -> Option<int> {
    first_eligible_from(fields, 0)
}

/// The first eligible field is eligible, nothing before it is, and when
/// the scan yields nothing, no field is eligible.
pub proof fn lemma_first_eligible_from(fields: Seq<Field>, i: int)
    requires
        0 <= i <= fields.len(),
    ensures
        match first_eligible_from(fields, i) {
            None => forall|j: int| i <= j < fields.len() ==> !eligible_field(#[trigger] fields[j]),
            Some(k) => i <= k < fields.len() && eligible_field(fields[k]) && (forall|j: int|
                i <= j < k ==> !eligible_field(#[trigger] fields[j])),
        },
    decreases fields.len() - i,
{
    if i < fields.len() {
        lemma_first_eligible_from(fields, i + 1);
    }
}

/// Holds when the annotation is named `item_separator`.
pub open spec fn is_sep_attr(a: Attr) -> bool {
    a.name@ == "item_separator"@
}

/// The index of the first `item_separator` annotation at or after `i`, if
/// any.
pub open spec fn first_sep_attr_from(attrs: Seq<Attr>, i: int) -> Option<int>
    decreases attrs.len() - i,
{
    if i < 0 || i >= attrs.len() {
        None
    } else if is_sep_attr(attrs[i]) {
        Some(i)
    } else {
        first_sep_attr_from(attrs, i + 1)
    }
}

/// The index of the first `item_separator` annotation, if any.
pub open spec fn first_sep_attr(attrs: Seq<Attr>) -> Option<int> {
    first_sep_attr_from(attrs, 0)
}

/// The first separator annotation carries the name, nothing before it
/// does, and when the scan yields nothing, no annotation carries it.
pub proof fn lemma_first_sep_attr_from(attrs: Seq<Attr>, i: int)
    requires
        0 <= i <= attrs.len(),
    ensures
        match first_sep_attr_from(attrs, i) {
            None => forall|j: int| i <= j < attrs.len() ==> !is_sep_attr(#[trigger] attrs[j]),
            Some(k) => i <= k < attrs.len() && is_sep_attr(attrs[k]) && (forall|j: int|
                i <= j < k ==> !is_sep_attr(#[trigger] attrs[j])),
        },
    decreases attrs.len() - i,
{
    if i < attrs.len() {
        lemma_first_sep_attr_from(attrs, i + 1);
    }
}

/// Scans the fields in declaration order and takes the first whose type
/// carries exactly one type argument: its full type is the container, the
/// argument the item type.  A declaration with no such field is rejected
/// with an error naming the declaration.
#[verifier::loop_isolation(false)]
pub fn find_item_binding(decl: &TypeDecl) -> (r: Result<ItemBinding, GenError>)
    ensures
        match r {
            Ok(b) => (first_eligible(decl.fields@) matches Some(fi)
                && te_segments(b.container) == te_segments(decl.fields@[fi].ty)
                && te_args(b.container) == te_args(decl.fields@[fi].ty)
                && b.item@ == decl.fields@[fi].ty.args@[0]@),
            Err(e) => first_eligible(decl.fields@) is None && (e matches GenError::NoEligibleField {
                decl_name,
                span,
            } && decl_name@ == decl.name@ && span == decl.name_span),
        },
{
    let mut i: usize = 0;
    while i < decl.fields.len()
        invariant
            i <= decl.fields@.len(),
            first_eligible(decl.fields@) == first_eligible_from(decl.fields@, i as int),
        decreases decl.fields@.len() - i,
    {
        if decl.fields[i].ty.args.len() == 1 {
            let container = clone_type_expr(&decl.fields[i].ty);
            let item = decl.fields[i].ty.args[0].clone();
            return Ok(ItemBinding { container, item });
        }
        i += 1;
    }
    Err(GenError::NoEligibleField { decl_name: decl.name.clone(), span: decl.name_span })
}

/// Searches the declaration's annotations for the first one named
/// `item_separator` and takes its string-literal value.  A missing
/// annotation and one of any other shape are rejected.
#[verifier::loop_isolation(false)]
pub fn extract_separator(decl: &TypeDecl) -> (r: Result<SeparatorLiteral, GenError>)
    ensures
        match r {
            Ok(lit) => (first_sep_attr(decl.attrs@) matches Some(ai)
                && (decl.attrs@[ai].value matches AttrValue::StrLit { value, value_span }
                && lit.value@ == value@ && lit.span == value_span)),
            Err(e) => match e {
                GenError::MissingSeparator { span } => first_sep_attr(decl.attrs@) is None && span
                    == decl.name_span,
                GenError::MalformedSeparator { span } => (first_sep_attr(decl.attrs@)
                    matches Some(ai) && decl.attrs@[ai].value is Other && span
                    == decl.attrs@[ai].span),
                _ => false,
            },
        },
{
    let key = String::from_str("item_separator");
    let mut i: usize = 0;
    while i < decl.attrs.len()
        invariant
            i <= decl.attrs@.len(),
            key@ == "item_separator"@,
            first_sep_attr(decl.attrs@) == first_sep_attr_from(decl.attrs@, i as int),
        decreases decl.attrs@.len() - i,
    {
        if decl.attrs[i].name == key {
            match &decl.attrs[i].value {
                AttrValue::StrLit { value, value_span } => {
                    return Ok(SeparatorLiteral { value: value.clone(), span: *value_span });
                },
                AttrValue::Other => {
                    return Err(GenError::MalformedSeparator { span: decl.attrs[i].span });
                },
            }
        }
        i += 1;
    }
    Err(GenError::MissingSeparator { span: decl.name_span })
}

/// Holds when `sep` is what classification makes of the literal `lit`: a
/// one-character literal becomes that character, anything longer is kept
/// exactly.
pub open spec fn classified(lit: Seq<char>, sep: Separator) -> bool {
    if lit.len() == 1 {
        sep == Separator::Single(lit[0])
    } else {
        lit.len() >= 2 && (sep matches Separator::Text(t) && t@ == lit)
    }
}

/// Classifies the separator literal by its denormalized length: empty is
/// rejected, one character is carried as a character, anything longer is
/// kept exactly.
pub fn classify_separator(lit: &String, lit_span: Span) -> (r: Result<Separator, GenError>)
    ensures
        match r {
            Ok(sep) => lit@.len() >= 1 && classified(lit@, sep),
            Err(e) => lit@.len() == 0 && e == (GenError::EmptySeparator { span: lit_span }),
        },
{
    let n = lit.as_str().unicode_len();
    if n == 0 {
        Err(GenError::EmptySeparator { span: lit_span })
    } else if n == 1 {
        Ok(Separator::Single(lit.as_str().get_char(0)))
    } else {
        Ok(Separator::Text(lit.clone()))
    }
}

/// However a non-empty literal was classified, the separator stands for
/// exactly the literal's characters: a one-character literal behaves as
/// that character supplied directly, and a longer literal is kept
/// unchanged, so splitting depends only on those characters.
pub proof fn lemma_classified_literal(lit: Seq<char>, sep: Separator)
    requires
        lit.len() >= 1,
        classified(lit, sep),
    ensures
        sep_chars(sep) == lit,
{
    if lit.len() == 1 {
        assert(seq![lit[0]] =~= lit);
    }
}

/// A separator that generation accepted is never empty, so the emitted
/// routine never faces an empty separator at parse time.
pub proof fn lemma_classified_nonempty(lit: Seq<char>, sep: Separator)
    requires
        lit.len() >= 1,
        classified(lit, sep),
    ensures
        sep_chars(sep).len() >= 1,
{
    lemma_classified_literal(lit, sep);
}

/// The whole generation pass: item binding, separator extraction,
/// classification, and assembly, in that order, each rejection carrying
/// the span a diagnostic should point at.
pub fn generate(decl: &TypeDecl) -> (r: Result<GeneratedImpl, GenError>)
    ensures
        match r {
            Ok(g) => {
                &&& g.wrapper_name@ == decl.name@
                &&& (first_eligible(decl.fields@) matches Some(fi)
                    && te_segments(g.container) == te_segments(decl.fields@[fi].ty)
                    && te_args(g.container) == te_args(decl.fields@[fi].ty)
                    && g.item@ == decl.fields@[fi].ty.args@[0]@)
                &&& (first_sep_attr(decl.attrs@) matches Some(ai)
                    && (decl.attrs@[ai].value matches AttrValue::StrLit { value, .. }
                    && value@.len() >= 1 && classified(value@, g.separator)))
            },
            Err(e) => match e {
                GenError::NoEligibleField { decl_name, span } => first_eligible(decl.fields@)
                    is None && decl_name@ == decl.name@ && span == decl.name_span,
                GenError::MissingSeparator { span } => first_eligible(decl.fields@) is Some
                    && first_sep_attr(decl.attrs@) is None && span == decl.name_span,
                GenError::MalformedSeparator { span } => first_eligible(decl.fields@) is Some && (
                first_sep_attr(decl.attrs@) matches Some(ai) && decl.attrs@[ai].value is Other
                    && span == decl.attrs@[ai].span),
                GenError::EmptySeparator { span } => first_eligible(decl.fields@) is Some && (
                first_sep_attr(decl.attrs@) matches Some(ai)
                    && (decl.attrs@[ai].value matches AttrValue::StrLit { value, value_span }
                    && value@.len() == 0 && span == value_span)),
            },
        },
{
    let binding = match find_item_binding(decl) {
        Ok(b) => b,
        Err(e) => {
            return Err(e);
        },
    };
    let lit = match extract_separator(decl) {
        Ok(l) => l,
        Err(e) => {
            return Err(e);
        },
    };
    let separator = match classify_separator(&lit.value, lit.span) {
        Ok(s) => s,
        Err(e) => {
            return Err(e);
        },
    };
    Ok(GeneratedImpl {
        wrapper_name: decl.name.clone(),
        container: binding.container,
        item: binding.item,
        separator,
    })
}

} // verus!
