use ts_rs::attr::enum_attr::{EnumAttr, EnumAttrError, Tagged};
use ts_rs::attr::field::{FieldAttr, FieldAttrError};
use ts_rs::attr::fn_attr::{Args, FnAttr};
use ts_rs::attr::generic::GenericAttr;
use ts_rs::attr::struct_attr::{StructAttr, StructAttrError};
use ts_rs::attr::variant::{VariantAttr, VariantAttrError};
use ts_rs::attr::{concrete_position, merge_bound, merge_option, merge_readable, Attr, Serde};
use ts_rs::inflection::Inflection;
use ts_rs::optional::Optional;

#[test]
fn enum_tagging() {
    let mut a = EnumAttr::new();
    assert!(matches!(a.tagged(), Ok(Tagged::Externally)));
    a.tag = Some("type".to_string());
    assert!(matches!(a.tagged(), Ok(Tagged::Internally { tag: "type" })));
    a.content = Some("data".to_string());
    assert!(matches!(a.tagged(), Ok(Tagged::Adjacently { tag: "type", content: "data" })));
    a.untagged = true;
    assert!(matches!(a.tagged(), Err(EnumAttrError::UntaggedWithContent)));
    a.content = None;
    assert!(matches!(a.tagged(), Err(EnumAttrError::UntaggedWithTag)));
    a.tag = None;
    assert!(matches!(a.tagged(), Ok(Tagged::Untagged)));
    let mut b = EnumAttr::new();
    b.content = Some("data".to_string());
    assert!(matches!(b.tagged(), Err(EnumAttrError::ContentWithoutTag)));
    assert_eq!(EnumAttrError::ContentWithoutTag.message(), "content cannot be used without tag");
}

#[test]
fn enum_validity() {
    let mut a = EnumAttr::new();
    assert_eq!(a.assert_validity(), Ok(()));
    a.type_override = Some("string".to_string());
    a.rename_all = Some(Inflection::Camel);
    assert_eq!(a.assert_validity(), Err(EnumAttrError::RenameAllWithType));
    assert_eq!(
        EnumAttrError::RenameAllWithType.message(),
        "`rename_all` is not compatible with `type`"
    );
    let mut b = EnumAttr::new();
    b.untagged = true;
    b.tag = Some("t".to_string());
    assert_eq!(b.assert_validity(), Err(EnumAttrError::UntaggedWithTag));
}

#[test]
fn struct_validity() {
    let mut a = StructAttr::new();
    assert_eq!(a.assert_validity(true), Ok(()));
    a.rename_all = Some(Inflection::Snake);
    assert_eq!(a.assert_validity(false), Err(StructAttrError::RenameAllOnUnnamed));
    assert_eq!(a.assert_validity(true), Ok(()));
    a.type_override = Some("any".to_string());
    assert_eq!(a.assert_validity(true), Err(StructAttrError::RenameAllWithType));
    let mut b = StructAttr::new();
    b.type_override = Some("any".to_string());
    b.optional_fields = Optional::Optional { nullable: false };
    assert_eq!(b.assert_validity(true), Err(StructAttrError::OptionalFieldsWithType));
    assert_eq!(
        StructAttrError::TagOnUnnamed.message(),
        "`tag` cannot be used with unit or tuple structs"
    );
}

#[test]
fn field_validity() {
    let mut a = FieldAttr::new();
    assert_eq!(a.assert_validity(true), Ok(()));
    a.flatten = true;
    assert_eq!(a.assert_validity(false), Err(FieldAttrError::FlattenOnTupleField));
    a.inline = true;
    assert_eq!(a.assert_validity(true), Err(FieldAttrError::InlineWithFlatten));
    let mut b = FieldAttr::new();
    b.using_serde_with = true;
    assert_eq!(b.assert_validity(true), Err(FieldAttrError::SerdeWithNeedsType));
    b.type_override = Some("string".to_string());
    assert_eq!(b.assert_validity(true), Ok(()));
    let mut c = FieldAttr::new();
    c.optional.optional = true;
    assert_eq!(c.assert_validity(false), Err(FieldAttrError::OptionalOnTupleField));
    assert_eq!(FieldAttrError::RenameOnTupleField.message(), "`flatten` cannot with tuple struct fields");
}

#[test]
fn variant_validity() {
    let mut a = VariantAttr::new();
    assert_eq!(a.assert_validity(false), Ok(()));
    a.rename_all = Some(Inflection::Camel);
    assert_eq!(a.assert_validity(false), Err(VariantAttrError::RenameAllOnUnnamed));
    assert_eq!(a.assert_validity(true), Ok(()));
    a.type_override = Some("x".to_string());
    assert_eq!(a.assert_validity(true), Err(VariantAttrError::TypeWithRenameAll));
    assert_eq!(
        VariantAttrError::RenameAllOnUnnamed.message(),
        "`rename_all` is not applicable to unit or tuple variants"
    );
}

#[test]
fn first_setting_wins_and_flags_accumulate() {
    let mut first = VariantAttr::new();
    first.rename_all = Some(Inflection::Snake);
    let mut second = VariantAttr::new();
    second.rename_all = Some(Inflection::Camel);
    second.skip = true;
    let merged = first.merge(second);
    assert_eq!(merged.rename_all, Some(Inflection::Snake));
    assert!(merged.skip);
}

#[test]
fn field_docs_concatenate_unless_flattened() {
    let mut a = FieldAttr::new();
    a.docs = "one".to_string();
    let mut b = FieldAttr::new();
    b.docs = "two".to_string();
    assert_eq!(a.merge(b).docs, "onetwo");
    let mut c = FieldAttr::new();
    c.docs = "one".to_string();
    let mut d = FieldAttr::new();
    d.flatten = true;
    assert_eq!(c.merge(d).docs, "");
}

#[test]
fn struct_merge_keeps_optional_marking() {
    let mut a = StructAttr::new();
    a.optional_fields = Optional::Optional { nullable: false };
    let mut b = StructAttr::new();
    b.optional_fields = Optional::Optional { nullable: true };
    b.tag = Some("t".to_string());
    let m = a.merge(b);
    assert_eq!(m.optional_fields, Optional::Optional { nullable: true });
    assert_eq!(m.tag, Some("t".to_string()));
}

#[test]
fn serde_attributes_merge_the_same_way() {
    let mut a = VariantAttr::new();
    a.inline = true;
    let b = VariantAttr::new();
    let merged = Serde(a).merge(Serde(b));
    assert!(merged.0.inline);
}

#[test]
fn generic_concrete_type() {
    let mut g = GenericAttr::new();
    assert!(g.concrete.is_none());
    g.merge(GenericAttr { concrete: Some("u32".to_string()) });
    g.merge(GenericAttr { concrete: Some("i64".to_string()) });
    assert_eq!(g.concrete, Some("u32".to_string()));
}

#[test]
fn function_argument_styles() {
    assert_eq!(Args::try_from("inlined".to_string()).ok(), Some(Args::Inlined));
    assert_eq!(Args::try_from("flattened".to_string()).ok(), Some(Args::Flattened));
    let err = Args::try_from("spread".to_string()).err().unwrap();
    assert_eq!(err.found, "spread");
    assert_eq!(Args::default(), Args::Flattened);
    assert_eq!(FnAttr::new().args, Args::Flattened);
}

#[test]
fn option_and_bound_merging() {
    assert_eq!(merge_option(Some(1), Some(2)), Some(1));
    assert_eq!(merge_option(None, Some(2)), Some(2));
    assert_eq!(merge_bound(Some(vec![1]), Some(vec![2, 3])), Some(vec![1, 2, 3]));
    assert_eq!(merge_bound::<u8>(None, None), None);
}

#[test]
fn merging_groups_freely() {
    let mut a = VariantAttr::new();
    a.rename_all = Some(Inflection::Snake);
    let mut b = VariantAttr::new();
    b.rename_all = Some(Inflection::Camel);
    b.inline = true;
    let mut c = VariantAttr::new();
    c.skip = true;
    c.type_override = Some("x".to_string());
    let left = a.merge(b).merge(c);

    let mut a = VariantAttr::new();
    a.rename_all = Some(Inflection::Snake);
    let mut b = VariantAttr::new();
    b.rename_all = Some(Inflection::Camel);
    b.inline = true;
    let mut c = VariantAttr::new();
    c.skip = true;
    c.type_override = Some("x".to_string());
    let right = a.merge(b.merge(c));

    assert_eq!(left.rename_all, right.rename_all);
    assert_eq!(left.inline, right.inline);
    assert_eq!(left.skip, right.skip);
    assert_eq!(left.type_override, right.type_override);
}

#[test]
fn merging_into_unset_options() {
    let mut a = StructAttr::new();
    a.tag = Some("kind".to_string());
    a.export = true;
    let merged = StructAttr::new().merge(a);
    assert_eq!(merged.tag, Some("kind".to_string()));
    assert!(merged.export);
}

#[test]
fn unknown_key_message() {
    let keys = vec!["rename".to_string(), "skip".to_string()];
    assert_eq!(
        ts_rs::attr::unknown_attribute("renme", &keys),
        "Unknown attribute \"renme\". Allowed attributes are: rename, skip"
    );
}

use ts_rs::attr::args::{apply_field, apply_struct, last_entry, ArgErrorKind, ArgToken, ArgValue, AttrKind};
use ts_rs::path::Delim;

fn ident(s: &str) -> ArgToken {
    ArgToken::Ident(s.to_string())
}

fn lit(s: &str) -> ArgToken {
    ArgToken::Lit(s.to_string())
}

fn punct(c: char) -> ArgToken {
    ArgToken::Punct(c)
}

#[test]
fn struct_arguments_are_read() {
    let t = vec![
        ident("rename_all"),
        punct('='),
        lit("\"camelCase\""),
        punct(','),
        ident("export"),
        punct(','),
        ident("rename"),
        punct('='),
        ident("NAME"),
        punct(':'),
        punct(':'),
        ident("X"),
        punct(','),
        ident("concrete"),
        ArgToken::Group(Delim::Paren),
        punct(','),
        ident("optional_fields"),
        punct('='),
        ident("nullable"),
    ];
    let entries = AttrKind::Struct.parse(&t).ok().unwrap();
    assert_eq!(entries.len(), 5);
    assert_eq!(entries[0].key, "rename_all");
    assert!(matches!(entries[0].value, ArgValue::Inflection(Inflection::Camel)));
    assert!(matches!(entries[1].value, ArgValue::Flag));
    assert!(matches!(entries[2].value, ArgValue::Expr(8, 12)));
    assert!(matches!(entries[3].value, ArgValue::Parens(14)));
    assert!(matches!(entries[4].value, ArgValue::Optional(Optional::Optional { nullable: true })));
}

#[test]
fn raw_string_values() {
    let t = vec![ident("type"), punct('='), lit("r#\"string | null\"#")];
    let entries = AttrKind::Field.parse(&t).ok().unwrap();
    assert!(matches!(&entries[0].value, ArgValue::Str(s) if s == "string | null"));
}

#[test]
fn argument_errors() {
    let unknown = AttrKind::Variant.parse(&vec![ident("flatten")]).err().unwrap();
    assert_eq!(unknown.at, 0);
    assert!(matches!(&unknown.kind, ArgErrorKind::UnknownKey(k) if k == "flatten"));
    assert_eq!(
        unknown.message(AttrKind::Variant),
        "Unknown attribute \"flatten\". Allowed attributes are: \"as\", \"type\", \"rename\", \"rename_all\", \"inline\", \"skip\", \"untagged\""
    );

    let no_eq = AttrKind::Field.parse(&vec![ident("rename"), lit("\"x\"")]).err().unwrap();
    assert_eq!(no_eq.at, 1);
    assert!(matches!(no_eq.kind, ArgErrorKind::ExpectedEq));

    let number = AttrKind::Field.parse(&vec![ident("rename"), punct('='), lit("1")]).err().unwrap();
    assert!(matches!(number.kind, ArgErrorKind::ExpectedString));
    assert_eq!(number.message(AttrKind::Field), "expected string");

    let trailing = AttrKind::Field.parse(&vec![ident("skip"), punct(',')]).err().unwrap();
    assert_eq!(trailing.at, 2);
    assert!(matches!(trailing.kind, ArgErrorKind::ExpectedKey));

    let no_comma = AttrKind::Field.parse(&vec![ident("skip"), ident("inline")]).err().unwrap();
    assert!(matches!(no_comma.kind, ArgErrorKind::ExpectedComma));

    let bad_case = AttrKind::Struct
        .parse(&vec![ident("rename_all"), punct('='), lit("\"Title\"")])
        .err()
        .unwrap();
    assert!(matches!(&bad_case.kind, ArgErrorKind::InvalidInflection(v) if v == "Title"));

    let keyword = AttrKind::Field
        .parse(&vec![ident("optional"), punct('='), ident("false")])
        .err()
        .unwrap();
    assert!(matches!(keyword.kind, ArgErrorKind::ExpectedIdent));

    let args = AttrKind::Fn.parse(&vec![ident("args"), punct('='), lit("\"spread\"")]).err().unwrap();
    assert_eq!(args.message(AttrKind::Fn), "Expected \"inlined\" or \"flattened\", found \"spread\"");

    assert!(AttrKind::Struct.parse(&vec![]).is_err());
}

#[test]
fn serde_struct_default_with_a_value_is_refused() {
    let t = vec![ident("default"), punct('='), lit("\"make\"")];
    let err = AttrKind::SerdeStruct.parse(&t).err().unwrap();
    assert!(matches!(err.kind, ArgErrorKind::ExpectedEq));
    let ok = AttrKind::SerdeField.parse(&t).ok().unwrap();
    assert!(matches!(ok[0].value, ArgValue::Flag));
}

#[test]
fn later_keys_win_within_one_attribute() {
    let t = vec![
        ident("tag"),
        punct('='),
        lit("\"a\""),
        punct(','),
        ident("tag"),
        punct('='),
        lit("\"b\""),
        punct(','),
        ident("export"),
    ];
    let entries = AttrKind::Struct.parse(&t).ok().unwrap();
    assert!(matches!(last_entry(&entries, "tag"), Some(ArgValue::Str(s)) if s == "b"));
    assert!(last_entry(&entries, "rename").is_none());
    let mut s = StructAttr::new();
    apply_struct(&mut s, &entries);
    assert_eq!(s.tag, Some("b".to_string()));
    assert!(s.export);

    let f = vec![ident("optional"), punct('='), ident("nullable"), punct(','), ident("rename"), punct('='), lit("\"x\"")];
    let entries = AttrKind::Field.parse(&f).ok().unwrap();
    let mut field = FieldAttr::new();
    apply_field(&mut field, &entries);
    assert!(field.optional.optional && field.optional.nullable);
    assert_eq!(field.rename, Some("x".to_string()));
}

#[test]
fn unreadable_serde_attributes_are_left_out() {
    let mut first = VariantAttr::new();
    first.rename_all = Some(Inflection::Snake);
    let mut second = VariantAttr::new();
    second.inline = true;
    second.rename_all = Some(Inflection::Kebab);
    let merged = merge_readable(VariantAttr::new(), vec![Some(first), None, Some(second)]);
    assert_eq!(merged.rename_all, Some(Inflection::Snake));
    assert!(merged.inline);
    assert!(!merged.skip);
    let none = merge_readable(VariantAttr::new(), vec![None, None]);
    assert!(none.rename_all.is_none() && !none.inline);
}

#[test]
fn later_concrete_types_win() {
    let names: Vec<String> = ["T", "U", "T"].iter().map(|s| s.to_string()).collect();
    assert_eq!(concrete_position(&names, "T"), Some(2));
    assert_eq!(concrete_position(&names, "U"), Some(1));
    assert_eq!(concrete_position(&names, "V"), None);
    assert_eq!(concrete_position(&vec![], "T"), None);
}
