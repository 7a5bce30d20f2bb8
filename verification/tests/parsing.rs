use std::collections::HashSet;

use collections_fromstr::decl::{Attr, AttrValue, Field, Span, TypeDecl, TypeExpr};
use collections_fromstr::generator::{generate, Separator};
use collections_fromstr::items::{CharParseError, IntParseError};
use collections_fromstr::runtime::run_generated_parse;
use collections_fromstr::split::{chars_of, split_chars};

#[test]
fn parse_vec_i32() {
    let r = run_generated_parse::<i32>("1,2,3,-3,-2,-1", &Separator::Single(','));
    assert_eq!(r, Ok(vec![1, 2, 3, -3, -2, -1]));
}

#[test]
fn multibyte_separator_splits_on_codepoint_boundaries() {
    let input = "1\u{1F525}2\u{1F525}3\u{1F525}-3\u{1F525}-2\u{1F525}-1";
    let r = run_generated_parse::<i32>(input, &Separator::Single('\u{1F525}'));
    assert_eq!(r, Ok(vec![1, 2, 3, -3, -2, -1]));
}

#[test]
fn string_separator() {
    let r = run_generated_parse::<i32>("1::2::3::-3::-2::-1", &Separator::Text("::".to_string()));
    assert_eq!(r, Ok(vec![1, 2, 3, -3, -2, -1]));
}

#[test]
fn multibyte_string_separator() {
    let sep = Separator::Text("\u{1F525}\u{1F525}".to_string());
    let r = run_generated_parse::<i32>("1\u{1F525}\u{1F525}2", &sep);
    assert_eq!(r, Ok(vec![1, 2]));
}

#[test]
fn splitting_keeps_textual_items_exactly() {
    let input = chars_of("Apple\u{1F34F},Banana\u{1F34C},Carrot\u{1F955}");
    let sep = chars_of(",");
    let parts = split_chars(&input, &sep);
    let words: Vec<String> = parts.iter().map(|p| p.iter().collect()).collect();
    assert_eq!(
        words,
        vec![
            "Apple\u{1F34F}".to_string(),
            "Banana\u{1F34C}".to_string(),
            "Carrot\u{1F955}".to_string()
        ]
    );
}

#[test]
fn order_insensitive_collection_gets_the_same_items() {
    let r = run_generated_parse::<i32>("42,100", &Separator::Single(',')).unwrap();
    let set: HashSet<i32> = r.into_iter().collect();
    let expected: HashSet<i32> = vec![42, 100].into_iter().collect();
    assert_eq!(set, expected);
}

#[test]
fn empty_input_yields_the_empty_container() {
    let r = run_generated_parse::<i32>("", &Separator::Single(','));
    assert_eq!(r, Ok(vec![]));
}

#[test]
fn single_value_without_separator() {
    let r = run_generated_parse::<i32>("7", &Separator::Single(','));
    assert_eq!(r, Ok(vec![7]));
}

#[test]
fn first_failing_item_wins() {
    let r = run_generated_parse::<i32>("1,x,3", &Separator::Single(','));
    assert_eq!(r, Err(IntParseError::InvalidDigit));
}

#[test]
fn empty_item_reports_its_own_error() {
    let r = run_generated_parse::<i32>("1,,2", &Separator::Single(','));
    assert_eq!(r, Err(IntParseError::Empty));
}

#[test]
fn overflow_is_noticed_before_a_later_bad_digit() {
    let r = run_generated_parse::<i32>("5,99999999999,x", &Separator::Single(','));
    assert_eq!(r, Err(IntParseError::PosOverflow));
}

#[test]
fn integer_boundaries() {
    assert_eq!(
        run_generated_parse::<i32>("2147483647", &Separator::Single(',')),
        Ok(vec![2147483647])
    );
    assert_eq!(
        run_generated_parse::<i32>("2147483648", &Separator::Single(',')),
        Err(IntParseError::PosOverflow)
    );
    assert_eq!(
        run_generated_parse::<i32>("-2147483648", &Separator::Single(',')),
        Ok(vec![-2147483648])
    );
    assert_eq!(
        run_generated_parse::<i32>("-2147483649", &Separator::Single(',')),
        Err(IntParseError::NegOverflow)
    );
}

#[test]
fn signs_and_bare_signs() {
    assert_eq!(run_generated_parse::<i32>("+5", &Separator::Single(',')), Ok(vec![5]));
    assert_eq!(
        run_generated_parse::<i32>("-", &Separator::Single(',')),
        Err(IntParseError::InvalidDigit)
    );
    assert_eq!(
        run_generated_parse::<i32>("+", &Separator::Single(',')),
        Err(IntParseError::InvalidDigit)
    );
    assert_eq!(
        run_generated_parse::<i32>("00042", &Separator::Single(',')),
        Ok(vec![42])
    );
}

#[test]
fn character_items() {
    let r = run_generated_parse::<char>("a,b,c", &Separator::Single(','));
    assert_eq!(r, Ok(vec!['a', 'b', 'c']));
    let r = run_generated_parse::<char>("ab,c", &Separator::Single(','));
    assert_eq!(r, Err(CharParseError));
}

#[test]
fn classified_one_character_literal_parses_like_the_character() {
    let d = TypeDecl {
        name: "NewVec".to_string(),
        name_span: Span { id: 0 },
        fields: vec![Field {
            name: None,
            ty: TypeExpr {
                segments: vec!["Vec".to_string()],
                args: vec!["i32".to_string()],
            },
            span: Span { id: 1 },
        }],
        attrs: vec![Attr {
            name: "item_separator".to_string(),
            value: AttrValue::StrLit { value: ",".to_string(), value_span: Span { id: 3 } },
            span: Span { id: 2 },
        }],
    };
    let g = generate(&d).unwrap();
    let through_generation = run_generated_parse::<i32>("8,9", &g.separator);
    let direct = run_generated_parse::<i32>("8,9", &Separator::Single(','));
    assert_eq!(through_generation, direct);
    assert_eq!(direct, Ok(vec![8, 9]));
}
