use collections_fromstr::decl::{Attr, AttrValue, Field, Span, TypeDecl, TypeExpr};
use collections_fromstr::generator::{classify_separator, generate, GenError, Separator};

fn ty(segments: &[&str], args: &[&str]) -> TypeExpr {
    TypeExpr {
        segments: segments.iter().map(|s| s.to_string()).collect(),
        args: args.iter().map(|s| s.to_string()).collect(),
    }
}

fn unnamed_field(segments: &[&str], args: &[&str], span: usize) -> Field {
    Field { name: None, ty: ty(segments, args), span: Span { id: span } }
}

fn sep_attr(value: &str, attr_span: usize, value_span: usize) -> Attr {
    Attr {
        name: "item_separator".to_string(),
        value: AttrValue::StrLit {
            value: value.to_string(),
            value_span: Span { id: value_span },
        },
        span: Span { id: attr_span },
    }
}

fn decl(name: &str, fields: Vec<Field>, attrs: Vec<Attr>) -> TypeDecl {
    TypeDecl { name: name.to_string(), name_span: Span { id: 0 }, fields, attrs }
}

#[test]
fn newtype_vec_generates_impl() {
    let d = decl(
        "NewVec",
        vec![unnamed_field(&["Vec"], &["i32"], 1)],
        vec![sep_attr(",", 2, 3)],
    );
    let g = generate(&d).unwrap();
    assert_eq!(g.wrapper_name, "NewVec");
    assert_eq!(g.container.segments, vec!["Vec".to_string()]);
    assert_eq!(g.container.args, vec!["i32".to_string()]);
    assert_eq!(g.item, "i32");
    assert_eq!(g.separator, Separator::Single(','));
}

#[test]
fn named_field_and_two_char_separator() {
    let d = decl(
        "NewVec",
        vec![Field {
            name: Some("item".to_string()),
            ty: ty(&["Vec"], &["i32"]),
            span: Span { id: 1 },
        }],
        vec![sep_attr("::", 2, 3)],
    );
    let g = generate(&d).unwrap();
    assert_eq!(g.separator, Separator::Text("::".to_string()));
}

#[test]
fn full_paths_are_preserved() {
    let d = decl(
        "NewVec",
        vec![unnamed_field(&["std", "vec", "Vec"], &["std::string::String"], 1)],
        vec![sep_attr(",", 2, 3)],
    );
    let g = generate(&d).unwrap();
    assert_eq!(
        g.container.segments,
        vec!["std".to_string(), "vec".to_string(), "Vec".to_string()]
    );
    assert_eq!(g.item, "std::string::String");
}

#[test]
fn first_matching_field_wins() {
    let d = decl(
        "Mixed",
        vec![
            unnamed_field(&["u64"], &[], 1),
            unnamed_field(&["Vec"], &["i32"], 2),
            unnamed_field(&["HashSet"], &["u8"], 3),
        ],
        vec![sep_attr(",", 4, 5)],
    );
    let g = generate(&d).unwrap();
    assert_eq!(g.container.segments, vec!["Vec".to_string()]);
    assert_eq!(g.item, "i32");
}

#[test]
fn two_argument_type_is_not_eligible() {
    let d = decl(
        "NewMap",
        vec![unnamed_field(&["HashMap"], &["i32", "i32"], 1)],
        vec![sep_attr(",", 2, 3)],
    );
    let e = generate(&d).unwrap_err();
    assert_eq!(
        e,
        GenError::NoEligibleField { decl_name: "NewMap".to_string(), span: Span { id: 0 } }
    );
}

#[test]
fn no_eligible_field_error_names_declaration() {
    let d = decl("Unit", vec![], vec![sep_attr(",", 1, 2)]);
    let e = generate(&d).unwrap_err();
    assert_eq!(e.describe(), "no eligible collection field in `Unit`");
}

#[test]
fn missing_separator_attribute() {
    let d = decl("NewVec", vec![unnamed_field(&["Vec"], &["i32"], 1)], vec![]);
    let e = generate(&d).unwrap_err();
    assert_eq!(e, GenError::MissingSeparator { span: Span { id: 0 } });
    assert_eq!(e.describe(), "missing `item_separator` attribute");
}

#[test]
fn malformed_separator_attribute() {
    let d = decl(
        "NewVec",
        vec![unnamed_field(&["Vec"], &["i32"], 1)],
        vec![Attr {
            name: "item_separator".to_string(),
            value: AttrValue::Other,
            span: Span { id: 7 },
        }],
    );
    let e = generate(&d).unwrap_err();
    assert_eq!(e, GenError::MalformedSeparator { span: Span { id: 7 } });
    assert_eq!(e.describe(), "unexpected syntax in `item_separator` attribute");
}

#[test]
fn empty_separator_is_rejected_at_generation() {
    let d = decl(
        "NewVec",
        vec![unnamed_field(&["Vec"], &["i32"], 1)],
        vec![sep_attr("", 2, 9)],
    );
    let e = generate(&d).unwrap_err();
    assert_eq!(e, GenError::EmptySeparator { span: Span { id: 9 } });
    assert_eq!(e.describe(), "the separator must not be empty");
}

#[test]
fn multibyte_single_character_separator_becomes_a_char() {
    let g = classify_separator(&"\u{1F525}".to_string(), Span { id: 1 }).unwrap();
    assert_eq!(g, Separator::Single('\u{1F525}'));
}

#[test]
fn one_character_literal_classifies_as_the_character_itself() {
    let g = classify_separator(&",".to_string(), Span { id: 1 }).unwrap();
    assert_eq!(g, Separator::Single(','));
}

#[test]
fn longer_literal_is_preserved_exactly() {
    let g = classify_separator(&"\u{1F525}\u{1F525}".to_string(), Span { id: 1 }).unwrap();
    assert_eq!(g, Separator::Text("\u{1F525}\u{1F525}".to_string()));
}

#[test]
fn unrelated_attributes_are_ignored() {
    let d = decl(
        "NewVec",
        vec![unnamed_field(&["Vec"], &["i32"], 1)],
        vec![
            Attr {
                name: "derive".to_string(),
                value: AttrValue::Other,
                span: Span { id: 4 },
            },
            sep_attr(",", 5, 6),
        ],
    );
    let g = generate(&d).unwrap();
    assert_eq!(g.separator, Separator::Single(','));
}
