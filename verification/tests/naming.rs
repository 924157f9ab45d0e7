use ts_rs::inflection::Inflection;
use ts_rs::optional::{apply, parse_optional, FieldType, Optional, OptionalAnnotation};
use ts_rs::utils::{format_docs, parse_docs, print_warning, raw_name_to_ts_field, to_ts_ident, DocValue};

#[test]
fn inflections_of_a_pascal_name() {
    assert_eq!(Inflection::Lower.apply("UserId"), "userid");
    assert_eq!(Inflection::Upper.apply("UserId"), "USERID");
    assert_eq!(Inflection::Snake.apply("UserId"), "user_id");
    assert_eq!(Inflection::ScreamingSnake.apply("UserId"), "USER_ID");
    assert_eq!(Inflection::Kebab.apply("UserId"), "user-id");
    assert_eq!(Inflection::ScreamingKebab.apply("UserId"), "USER-ID");
    assert_eq!(Inflection::Pascal.apply("UserId"), "UserId");
    assert_eq!(Inflection::Camel.apply("UserId"), "userId");
}

#[test]
fn inflections_of_a_snake_name() {
    assert_eq!(Inflection::Pascal.apply("user_id"), "UserId");
    assert_eq!(Inflection::Camel.apply("user_id"), "userId");
    assert_eq!(Inflection::Snake.apply("user_id"), "user_id");
    assert_eq!(Inflection::Kebab.apply("first_name"), "first-name");
}

#[test]
fn snake_case_splits_every_capital() {
    assert_eq!(Inflection::Snake.apply("HTTPServer"), "h_t_t_p_server");
}

#[test]
fn inflection_names_round_trip() {
    let all = [
        Inflection::Lower,
        Inflection::Upper,
        Inflection::Camel,
        Inflection::Snake,
        Inflection::Pascal,
        Inflection::ScreamingSnake,
        Inflection::Kebab,
        Inflection::ScreamingKebab,
    ];
    for i in all {
        assert_eq!(Inflection::from_rename_all(i.as_str()).ok(), Some(i));
    }
    assert_eq!(Inflection::Camel.as_str(), "camelCase");
    assert_eq!(Inflection::ScreamingKebab.as_str(), "SCREAMING-KEBAB-CASE");
}

#[test]
fn unknown_rename_all_value() {
    let err = Inflection::from_rename_all("Title Case").err().unwrap();
    assert_eq!(err.value, "Title Case");
    assert_eq!(
        err.message(),
        "Value \"Title Case\" is not valid for \"rename_all\". Accepted values are: \"lowercase\", \"UPPERCASE\", \"camelCase\", \"snake_case\", \"PascalCase\", \"SCREAMING_SNAKE_CASE\", \"kebab-case\" and \"SCREAMING-KEBAB-CASE\""
    );
}

#[test]
fn field_names_that_need_quotes() {
    assert_eq!(raw_name_to_ts_field("user_id".to_string()), "user_id");
    assert_eq!(raw_name_to_ts_field("$ref".to_string()), "$ref");
    assert_eq!(raw_name_to_ts_field("my-field".to_string()), "\"my-field\"");
    assert_eq!(raw_name_to_ts_field("1st".to_string()), "\"1st\"");
    assert_eq!(raw_name_to_ts_field("".to_string()), "");
    assert_eq!(raw_name_to_ts_field("has space".to_string()), "\"has space\"");
    assert_eq!(raw_name_to_ts_field("a\"b".to_string()), "\"a\\\"b\"");
    assert_eq!(raw_name_to_ts_field("a\\b".to_string()), "\"a\\\\b\"");
}

#[test]
fn raw_identifiers_lose_their_prefix() {
    assert_eq!(to_ts_ident("r#type"), "type");
    assert_eq!(to_ts_ident("plain"), "plain");
    assert_eq!(to_ts_ident("r#r#x"), "x");
}

#[test]
fn doc_comments() {
    assert_eq!(format_docs(&vec![]), "");
    assert_eq!(format_docs(&vec![" Hello".to_string()]), "/**\n * Hello\n */\n");
    assert_eq!(
        format_docs(&vec![" first".to_string(), " second".to_string()]),
        "/**\n * first\n * second\n */\n"
    );
    assert_eq!(format_docs(&vec!["\n block\n".to_string()]), "/**\n block\n*/\n");
}

#[test]
fn doc_attributes_must_be_literals() {
    let ok = parse_docs(&vec![DocValue::Literal(" one".to_string())]);
    assert_eq!(ok.ok(), Some("/**\n * one\n */\n".to_string()));
    let bad = parse_docs(&vec![DocValue::Literal(" one".to_string()), DocValue::Other]);
    let err = bad.err().unwrap();
    assert_eq!(err.message(), "doc  with non literal expression found");
}

#[test]
fn warnings_are_silent_without_serde() {
    assert_eq!(print_warning("title", "content", "note"), Ok(()));
}

#[test]
fn optional_markings_combine() {
    let inherit = Optional::Inherit;
    let plain = Optional::Optional { nullable: false };
    let nullable = Optional::Optional { nullable: true };
    assert_eq!(inherit.or(plain), plain);
    assert_eq!(plain.or(inherit), plain);
    assert_eq!(plain.or(nullable), nullable);
    assert_eq!(nullable.or(plain), nullable);
    assert_eq!(plain.or(Optional::NotOptional), Optional::NotOptional);
    assert_eq!(Optional::NotOptional.or(plain), plain);
    assert_eq!(Optional::default(), Optional::Inherit);
}

#[test]
fn optional_grouping_matters_only_for_one_combination() {
    let a = Optional::Optional { nullable: true };
    let b = Optional::NotOptional;
    let c = Optional::Optional { nullable: false };
    assert_eq!(a.or(b).or(c), Optional::Optional { nullable: false });
    assert_eq!(a.or(b.or(c)), Optional::Optional { nullable: true });
}

#[test]
fn optional_attribute_values() {
    assert_eq!(parse_optional(None).ok(), Some(Optional::Optional { nullable: false }));
    assert_eq!(parse_optional(Some("nullable")).ok(), Some(Optional::Optional { nullable: true }));
    assert_eq!(parse_optional(Some("false")).ok(), Some(Optional::NotOptional));
    let err = parse_optional(Some("maybe")).err().unwrap();
    assert_eq!(err.message(), "expected 'nullable'");
}

#[test]
fn field_optional_decision() {
    let plain = Optional::Optional { nullable: false };
    assert_eq!(
        apply(Optional::Inherit, plain, false, false, false),
        (OptionalAnnotation::CheckedOption, FieldType::OptionInner)
    );
    assert_eq!(
        apply(plain, Optional::Inherit, false, false, false),
        (OptionalAnnotation::IfOption, FieldType::OptionInner)
    );
    assert_eq!(
        apply(plain, Optional::Inherit, true, true, true),
        (OptionalAnnotation::Fixed(true), FieldType::AsIs)
    );
    assert_eq!(
        apply(plain, Optional::NotOptional, false, false, false),
        (OptionalAnnotation::Fixed(false), FieldType::AsIs)
    );
    assert_eq!(
        apply(Optional::Inherit, Optional::Optional { nullable: true }, false, false, false),
        (OptionalAnnotation::CheckedOption, FieldType::AsIs)
    );
}

#[test]
fn optional_or_is_idempotent() {
    for o in [
        Optional::Inherit,
        Optional::NotOptional,
        Optional::Optional { nullable: false },
        Optional::Optional { nullable: true },
    ] {
        assert_eq!(o.or(o), o);
    }
}

#[test]
fn skipped_when_serializing_needs_default() {
    assert_eq!(
        apply(Optional::Inherit, Optional::Inherit, false, true, true).0,
        OptionalAnnotation::Fixed(true)
    );
    assert_eq!(
        apply(Optional::Inherit, Optional::Inherit, false, true, false).0,
        OptionalAnnotation::Fixed(false)
    );
}

#[test]
fn snake_case_undoes_pascal_and_camel_case() {
    for name in ["user_id", "a", "created_at2", "x_y_z"] {
        let pascal = Inflection::Pascal.apply(name);
        let camel = Inflection::Camel.apply(name);
        assert_eq!(Inflection::Snake.apply(&pascal), name);
        assert_eq!(Inflection::Snake.apply(&camel), name);
    }
    assert_eq!(Inflection::Pascal.apply("created_at2"), "CreatedAt2");
    assert_eq!(Inflection::Camel.apply("created_at2"), "createdAt2");
}
