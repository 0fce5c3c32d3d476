use nanoserde_derive::attrs::{
    attrs_default, attrs_default_with, attrs_proxy, attrs_rename, attrs_serialize_none_as_null,
    attrs_skip, attrs_transparent, validate, validate_attrs, validate_field_attrs, Attribute, Site,
};

fn attr(tokens: &[&str]) -> Attribute {
    Attribute { tokens: tokens.iter().map(|t| t.to_string()).collect() }
}

#[test]
fn type_level_accepts_every_known_annotation() {
    let attrs = vec![
        attr(&["proxy", "Wire"]),
        attr(&["rename", "other"]),
        attr(&["default"]),
        attr(&["default", "7"]),
        attr(&["default_with", "make"]),
        attr(&["transparent"]),
        attr(&["skip"]),
    ];
    assert_eq!(validate_attrs(&attrs), Ok(()));
}

#[test]
fn field_level_accepts_every_known_annotation() {
    let attrs = vec![
        attr(&["proxy", "Wire"]),
        attr(&["rename", "other"]),
        attr(&["default", "7"]),
        attr(&["default_with", "make"]),
        attr(&["serialize_none_as_null"]),
        attr(&["skip"]),
    ];
    assert_eq!(validate_field_attrs(&attrs), Ok(()));
}

#[test]
fn empty_list_is_valid() {
    assert_eq!(validate_attrs(&[]), Ok(()));
    assert_eq!(validate_field_attrs(&[]), Ok(()));
}

#[test]
fn annotation_without_tokens_is_rejected() {
    let attrs = vec![attr(&["skip"]), attr(&[])];
    assert_eq!(
        validate_attrs(&attrs),
        Err("Attribute must have at least one token".to_string())
    );
    assert_eq!(
        validate_field_attrs(&attrs),
        Err("Attribute must have at least one token".to_string())
    );
}

#[test]
fn unknown_type_annotation_is_named() {
    let attrs = vec![attr(&["rename", "x"]), attr(&["serialize_none_as_null"])];
    assert_eq!(
        validate_attrs(&attrs),
        Err("unrecognized nserde() struct attribute: \"serialize_none_as_null\"".to_string())
    );
}

#[test]
fn unknown_field_annotation_is_named() {
    let attrs = vec![attr(&["transparent"])];
    assert_eq!(
        validate_field_attrs(&attrs),
        Err("unrecognized nserde() field attribute: \"transparent\"".to_string())
    );
}

#[test]
fn unknown_name_is_quoted_with_escapes() {
    let attrs = vec![attr(&["we\"ird"])];
    assert_eq!(
        validate(&attrs, Site::Type),
        Err("unrecognized nserde() struct attribute: \"we\\\"ird\"".to_string())
    );
}

#[test]
fn single_count_mismatch_message() {
    let attrs = vec![attr(&["proxy"])];
    assert_eq!(
        validate_attrs(&attrs),
        Err("Attribute \"proxy\" expects 1 arguments, found 0".to_string())
    );
}

#[test]
fn multi_count_mismatch_message() {
    let attrs = vec![attr(&["default", "a", "b"])];
    assert_eq!(
        validate_field_attrs(&attrs),
        Err("Attribute \"default\" expects 0 or 1 arguments, found 2".to_string())
    );
}

#[test]
fn large_count_is_rendered_in_decimal() {
    let mut tokens = vec!["skip"];
    tokens.extend(std::iter::repeat("x").take(12));
    let attrs = vec![attr(&tokens)];
    assert_eq!(
        validate_attrs(&attrs),
        Err("Attribute \"skip\" expects 0 arguments, found 12".to_string())
    );
}

#[test]
fn first_failing_annotation_is_reported() {
    let attrs = vec![attr(&["skip", "x"]), attr(&["nope"]), attr(&[])];
    assert_eq!(
        validate_attrs(&attrs),
        Err("Attribute \"skip\" expects 0 arguments, found 1".to_string())
    );
}

#[test]
fn default_has_three_outcomes() {
    assert_eq!(attrs_default(&[attr(&["default"])]), Some(None));
    assert_eq!(
        attrs_default(&[attr(&["default", "foo"])]),
        Some(Some("foo".to_string()))
    );
    assert_eq!(attrs_default(&[attr(&["skip"])]), None);
    assert_eq!(attrs_default(&[]), None);
}

#[test]
fn first_occurrence_wins() {
    let attrs = vec![
        attr(&["rename", "first"]),
        attr(&["proxy", "A"]),
        attr(&["rename", "second"]),
        attr(&["proxy", "B"]),
        attr(&["default", "1"]),
        attr(&["default"]),
        attr(&["default_with", "f"]),
        attr(&["default_with", "g"]),
    ];
    assert_eq!(attrs_rename(&attrs), Some("first".to_string()));
    assert_eq!(attrs_proxy(&attrs), Some("A".to_string()));
    assert_eq!(attrs_default(&attrs), Some(Some("1".to_string())));
    assert_eq!(attrs_default_with(&attrs), Some("f".to_string()));
}

#[test]
fn extraction_skips_wrong_arity() {
    let attrs = vec![attr(&["proxy"]), attr(&["proxy", "A", "B"]), attr(&["proxy", "C"])];
    assert_eq!(attrs_proxy(&attrs), Some("C".to_string()));
    assert_eq!(attrs_rename(&attrs), None);
    assert_eq!(attrs_default_with(&attrs), None);
}

#[test]
fn flags_need_no_arguments() {
    let attrs = vec![attr(&["skip", "x"]), attr(&["transparent"])];
    assert!(attrs_transparent(&attrs));
    assert!(!attrs_skip(&attrs));
    assert!(!attrs_serialize_none_as_null(&attrs));
    let attrs = vec![attr(&["rename", "r"]), attr(&["skip"]), attr(&["serialize_none_as_null"])];
    assert!(attrs_skip(&attrs));
    assert!(attrs_serialize_none_as_null(&attrs));
    assert!(!attrs_transparent(&attrs));
}
