use ts_rs::attr::enum_attr::TaggingKind;
use ts_rs::attr::field::FieldAttr;
use ts_rs::attr::fn_attr::Args as FnArgs;
use ts_rs::attr::struct_attr::{StructAttr, StructAttrError};
use ts_rs::deps::{DepKind, Dependencies};
use ts_rs::derive::{
    export_test_name, format_decl, format_generics, name_with_generics, output_path,
    type_params_not_fixed, GenericParamText,
};
use ts_rs::inflection::Inflection;
use ts_rs::optional::{FieldType, Optional, OptionalAnnotation};
use ts_rs::types::enum_def::{
    assemble_enum, enum_inline, format_variant, variant_form, variant_name, Repr, VariantFields, VariantForm,
    VariantPieces,
};
use ts_rs::types::function::{
    args_struct_name, check_params, fn_inline, fn_ts_name, format_return, ArgsText,
};
use ts_rs::types::named::{
    field_form, field_name, format_field, format_tag_field, named_inline, named_inline_flattened,
    NamedAnnotation, NamedFieldForm,
};
use ts_rs::types::newtype::{newtype_form, NewtypeForm};
use ts_rs::types::tuple::{element_form, format_element, tuple_inline, ElementSource};
use ts_rs::types::{fixed_inline_text, type_def, FieldsShape, TypeDefKind};

fn strings(v: &[&str]) -> Vec<String> {
    v.iter().map(|s| s.to_string()).collect()
}

fn pieces(name: &str, ty: &str) -> VariantPieces {
    VariantPieces {
        name: name.to_string(),
        ty: ty.to_string(),
        field: "number".to_string(),
        tag: "type".to_string(),
        content: "data".to_string(),
        value: "1".to_string(),
    }
}

#[test]
fn object_of_plain_fields() {
    let fields = vec![
        format_field("", "user_id", "", "number"),
        format_field("", "first_name", "", "string"),
        format_field("", "last_name", "", "string"),
    ];
    assert_eq!(
        named_inline(&fields, &vec![]),
        "{ user_id: number; first_name: string; last_name: string }"
    );
}

#[test]
fn object_with_flattened_parts_is_merged() {
    let fields = vec![format_field("", "a", "", "number")];
    assert_eq!(named_inline(&fields, &strings(&["{ b: string }"])), "{ a: number; b: string }");
    assert_eq!(named_inline(&vec![], &vec![]), "{  }");
    assert_eq!(named_inline(&vec![], &strings(&["( { a: A } | { b: B } )"])), "{ a: A } | { b: B }");
    assert_eq!(named_inline(&vec![], &strings(&["  X  "])), "X");
    assert_eq!(named_inline(&vec![], &strings(&["X", "Y"])), "X & Y");
    assert_eq!(named_inline_flattened(&vec![], &strings(&["(X)"])), "(X)");
}

#[test]
fn field_texts() {
    assert_eq!(format_field("/** doc */", "x", "?", "number"), "\n/** doc */x?: number");
    assert_eq!(format_tag_field("kind", "Circle"), "\"kind\": \"Circle\"");
}

#[test]
fn field_names() {
    assert_eq!(field_name(None, None, "r#type"), "type");
    assert_eq!(field_name(None, Some(Inflection::Camel), "first_name"), "firstName");
    assert_eq!(field_name(Some("my-name"), Some(Inflection::Camel), "first_name"), "\"my-name\"");
    assert_eq!(field_name(None, Some(Inflection::Kebab), "first_name"), "\"first-name\"");
}

#[test]
fn field_forms() {
    let mut attr = FieldAttr::new();
    assert_eq!(
        field_form(&attr, Optional::Inherit),
        NamedFieldForm::Field { annotation: NamedAnnotation::Absent, inner: false, inline: false }
    );
    assert_eq!(
        field_form(&attr, Optional::Optional { nullable: false }),
        NamedFieldForm::Field { annotation: NamedAnnotation::IfOption, inner: true, inline: false }
    );
    attr.optional.optional = true;
    attr.optional.nullable = true;
    assert_eq!(
        field_form(&attr, Optional::Inherit),
        NamedFieldForm::Field { annotation: NamedAnnotation::CheckedOption, inner: false, inline: false }
    );
    attr.flatten = true;
    assert_eq!(field_form(&attr, Optional::Inherit), NamedFieldForm::Flattened { inner: false });
    attr.type_override = Some("any".to_string());
    assert_eq!(field_form(&attr, Optional::Inherit), NamedFieldForm::Override);
    attr.skip = true;
    assert_eq!(field_form(&attr, Optional::Inherit), NamedFieldForm::Skipped);
}

#[test]
fn tuple_texts() {
    let elems = vec![format_element(false, "number"), format_element(true, "string")];
    assert_eq!(tuple_inline(&elems), "[number, (string)?]");
    assert_eq!(tuple_inline(&vec![]), "[]");
    let mut attr = FieldAttr::new();
    let form = element_form(&attr, Optional::Inherit).unwrap();
    assert_eq!(form.optional, OptionalAnnotation::Fixed(false));
    assert_eq!(form.ty, FieldType::AsIs);
    assert_eq!(form.source, ElementSource::Name);
    attr.inline = true;
    assert_eq!(element_form(&attr, Optional::Inherit).unwrap().source, ElementSource::Inline);
    attr.skip = true;
    assert!(element_form(&attr, Optional::Inherit).is_none());
}

#[test]
fn newtype_forms() {
    let mut attr = FieldAttr::new();
    assert_eq!(newtype_form(&attr), NewtypeForm::Name);
    attr.inline = true;
    assert_eq!(newtype_form(&attr), NewtypeForm::Inline);
    attr.type_override = Some("string".to_string());
    assert_eq!(newtype_form(&attr), NewtypeForm::Override);
    attr.skip = true;
    assert_eq!(newtype_form(&attr), NewtypeForm::Null);
}

#[test]
fn type_kinds() {
    let attr = StructAttr::new();
    assert_eq!(type_def(&attr, FieldsShape::Named(0)).ok(), Some(TypeDefKind::EmptyObject));
    assert_eq!(type_def(&attr, FieldsShape::Named(2)).ok(), Some(TypeDefKind::Named));
    assert_eq!(type_def(&attr, FieldsShape::Unnamed(0)).ok(), Some(TypeDefKind::EmptyArray));
    assert_eq!(type_def(&attr, FieldsShape::Unnamed(1)).ok(), Some(TypeDefKind::Newtype));
    assert_eq!(type_def(&attr, FieldsShape::Unnamed(3)).ok(), Some(TypeDefKind::Tuple));
    assert_eq!(type_def(&attr, FieldsShape::Unit).ok(), Some(TypeDefKind::Null));
    assert_eq!(fixed_inline_text(TypeDefKind::EmptyObject), Some("Record<symbol, never>"));
    assert_eq!(fixed_inline_text(TypeDefKind::Null), Some("null"));
    let mut tagged = StructAttr::new();
    tagged.tag = Some("kind".to_string());
    assert_eq!(type_def(&tagged, FieldsShape::Named(0)).ok(), Some(TypeDefKind::Named));
    assert_eq!(type_def(&tagged, FieldsShape::Unnamed(1)).err(), Some(StructAttrError::TagOnUnnamed));
    let mut over = StructAttr::new();
    over.type_override = Some("any".to_string());
    assert_eq!(type_def(&over, FieldsShape::Unit).ok(), Some(TypeDefKind::Override));
}

#[test]
fn variant_forms_by_tagging() {
    let ext = TaggingKind::Externally;
    assert_eq!(variant_form(None, false, false, ext, VariantFields::Unit, false), VariantForm::Name);
    assert_eq!(
        variant_form(None, false, false, ext, VariantFields::Newtype { skip: false }, false),
        VariantForm::External { optional: true }
    );
    assert_eq!(
        variant_form(None, false, false, ext, VariantFields::Other, false),
        VariantForm::External { optional: false }
    );
    assert_eq!(
        variant_form(None, false, true, ext, VariantFields::Other, false),
        VariantForm::Type
    );
    let adj = TaggingKind::Adjacently;
    assert_eq!(variant_form(None, false, false, adj, VariantFields::Unit, false), VariantForm::TagOnly);
    assert_eq!(
        variant_form(None, false, false, adj, VariantFields::Newtype { skip: false }, false),
        VariantForm::Adjacent { field: true }
    );
    let int = TaggingKind::Internally;
    assert_eq!(variant_form(None, false, false, int, VariantFields::Other, true), VariantForm::Type);
    assert_eq!(
        variant_form(None, false, false, int, VariantFields::Other, false),
        VariantForm::Internal { field: false }
    );
    assert_eq!(
        variant_form(Some(Repr::Int), true, false, ext, VariantFields::Unit, false),
        VariantForm::ReprValue
    );
    assert_eq!(
        variant_form(Some(Repr::Name), false, false, ext, VariantFields::Unit, false),
        VariantForm::ReprName
    );
}

#[test]
fn variant_texts() {
    let p = pieces("Circle", "{ radius: number }");
    assert_eq!(format_variant(VariantForm::Name, &p).formatted, "\"Circle\"");
    assert_eq!(format_variant(VariantForm::Type, &p).formatted, "{ radius: number }");
    let ext = format_variant(VariantForm::External { optional: true }, &p);
    assert_eq!(ext.formatted, "{ \"Circle\": { radius: number } }");
    let (opt, never) = ext.optional.unwrap();
    assert_eq!(opt, "{ \"Circle\": { radius: number }; \"Circle\"?: never }");
    assert_eq!(never, "\"Circle\"?: never");
    assert_eq!(format_variant(VariantForm::TagOnly, &p).formatted, "{ \"type\": \"Circle\" }");
    assert_eq!(
        format_variant(VariantForm::Adjacent { field: false }, &p).formatted,
        "{ \"type\": \"Circle\", \"data\": { radius: number } }"
    );
    assert_eq!(
        format_variant(VariantForm::Adjacent { field: true }, &p).formatted,
        "{ \"type\": \"Circle\", \"data\": number }"
    );
    assert_eq!(
        format_variant(VariantForm::Internal { field: false }, &p).formatted,
        "{ \"type\": \"Circle\" } & { radius: number }"
    );
    assert_eq!(format_variant(VariantForm::ReprValue, &p).formatted, "\"Circle\" = 1");
    assert_eq!(format_variant(VariantForm::ReprName, &p).formatted, "\"Circle\" = \"Circle\"");
    assert!(format_variant(VariantForm::External { optional: false }, &p).optional.is_none());
}

#[test]
fn enum_union() {
    let a = format_variant(VariantForm::Name, &pieces("A", ""));
    let b = format_variant(VariantForm::External { optional: true }, &pieces("B", "number"));
    let texts = assemble_enum(&vec![Some(a), None, Some(b)], false);
    assert_eq!(texts.inline, "\"A\" | { \"B\": number }");
    assert_eq!(texts.inline_flattened.unwrap(), "(\"A\" | { \"B\": number })");
    assert_eq!(
        texts.optional_inline_flattened.unwrap(),
        "({ \"B\": number; \"B\"?: never } | { \"B\"?: never })"
    );
    let r = assemble_enum(&vec![Some(format_variant(VariantForm::ReprValue, &pieces("X", "")))], true);
    assert_eq!(r.inline, "\"X\" = 1");
    assert!(r.inline_flattened.is_none());
    assert!(r.optional_inline_flattened.is_none());
    assert_eq!(enum_inline(&vec![], false, true), "never");
}

#[test]
fn function_types() {
    assert_eq!(format_return(false, None), "void");
    assert_eq!(format_return(true, None), "Promise<void>");
    assert_eq!(format_return(false, Some("number")), "number");
    assert_eq!(format_return(true, Some("number")), "Promise<number>");
    assert_eq!(fn_inline(&ArgsText::NoArgs, "void"), "() => void");
    let inlined = ArgsText::Struct { args: FnArgs::Inlined, text: "{ a: number; b: string }".to_string() };
    assert_eq!(fn_inline(&inlined, "void"), "(args: { a: number; b: string }) => void");
    let flat = ArgsText::Struct { args: FnArgs::Flattened, text: "{ a: number; b: string }".to_string() };
    assert_eq!(fn_inline(&flat, "string"), "(a: number, b: string) => string");
    assert_eq!(fn_ts_name(None, "get_user"), "GetUser");
    assert_eq!(fn_ts_name(Some("fetch_all"), "get_user"), "FetchAll");
    assert_eq!(args_struct_name("get_user"), "GetUserArgs");
    assert!(check_params(&vec![false, false]).is_ok());
    let err = check_params(&vec![true, false]).err().unwrap();
    assert_eq!(err.message(), "self parameter is not allowed");
}

#[test]
fn declarations() {
    assert_eq!(output_path(None, "User"), "User.ts");
    assert_eq!(output_path(Some("models/"), "User"), "models/User.ts");
    assert_eq!(output_path(Some("models/all.ts"), "User"), "models/all.ts");
    assert_eq!(name_with_generics("Point", &vec![]), "Point");
    assert_eq!(name_with_generics("Point", &strings(&["T", "U"])), "Point<T, U>");
    let params = vec![
        GenericParamText { name: "T".to_string(), default: None },
        GenericParamText { name: "U".to_string(), default: Some("number".to_string()) },
    ];
    assert_eq!(format_generics(&params), "<T, U = number>");
    assert_eq!(format_generics(&vec![]), "");
    assert_eq!(format_decl("Point", "<T>", "{ x: T }"), "type Point<T> = { x: T };");
    assert_eq!(format_decl("User", "", "{ }"), "type User = { };");
    assert_eq!(export_test_name("r#MyType"), "export_bindings_mytype");
    assert_eq!(
        type_params_not_fixed(&strings(&["T", "U", "V"]), &strings(&["U"])),
        strings(&["T", "V"])
    );
}

#[test]
fn dependencies_are_sets() {
    let path: syn::Path = syn::parse_str("ts_rs").unwrap();
    let mut deps = Dependencies::new(path);
    deps.push("User");
    deps.push("User");
    deps.append_from("Role");
    let mut types = deps.used_types();
    types.sort();
    assert_eq!(types, strings(&["Role", "User"]));
    let entries = deps.entries();
    assert_eq!(entries.len(), 3);
    assert!(entries.iter().any(|d| d.kind == DepKind::Transitive && d.ty == "Role"));
    assert!(entries.iter().any(|d| d.kind == DepKind::Generics && d.ty == "User"));
    let mut other = Dependencies::new(syn::parse_str("ts_rs").unwrap());
    other.push("Role");
    deps.append(other);
    assert_eq!(deps.used_types().len(), 2);
    assert_eq!(deps.entries().len(), 5);
}

#[test]
fn variant_names_follow_rename_all() {
    assert_eq!(variant_name(None, "SomeVariant"), "SomeVariant");
    assert_eq!(variant_name(Some(Inflection::Snake), "SomeVariant"), "some_variant");
    assert_eq!(variant_name(Some(Inflection::Kebab), "SomeVariant"), "some-variant");
}

#[test]
fn skipped_variants_add_nothing() {
    let a = || Some(format_variant(VariantForm::Name, &pieces("A", "")));
    let with_skip = assemble_enum(&vec![None, a(), None], false);
    let without = assemble_enum(&vec![a()], false);
    assert_eq!(with_skip.inline, without.inline);
    assert_eq!(with_skip.inline_flattened, without.inline_flattened);
    assert_eq!(with_skip.optional_inline_flattened, without.optional_inline_flattened);
}
