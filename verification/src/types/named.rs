//! Structs with named fields: the decision for each field, and the TypeScript
//! object type assembled from the fields' texts.
use vstd::prelude::*;

use crate::attr::field::FieldAttr;
use crate::inflection::{inflect, inflect_defined, Inflection};
use crate::optional::Optional;
use crate::text::{
    join, joined, push_str, replace_all, replaced, string_from, string_seq_views, trim, trimmed,
};
use crate::utils::{raw_name_to_ts_field, strip_raw_prefix, to_ts_ident, ts_field};

verus! {

/// The docs of a field as written before it: a newline and the docs, or
/// nothing when there are none.
pub open spec fn docs_prefix(docs: Seq<char>) -> Seq<char> {
    if docs.len() == 0 {
        Seq::empty()
    } else {
        seq!['\n'] + docs
    }
}

/// What follows a field's name before the colon.
#[derive(Clone, Copy, Debug, PartialEq, Eq, Structural)]
pub enum NamedAnnotation {
    /// `?`; the generated code only compiles when the field's type is an `Option`.
    CheckedOption,
    /// `?` exactly when the field's type is an `Option`.
    IfOption,
    /// Nothing.
    Absent,
}

/// How a named field shows up in the TypeScript type.
#[derive(Clone, Copy, Debug, PartialEq, Eq, Structural)]
pub enum NamedFieldForm {
    /// Left out.
    Skipped,
    /// `name: <the type override>,`
    Override,
    /// Merged into the object with `&`; `inner` when the field's type is
    /// replaced by the type inside its `Option`.
    Flattened { inner: bool },
    /// `name<annotation>: <type>,`, with the type inlined or named.
    Field { annotation: NamedAnnotation, inner: bool, inline: bool },
}

/// The form of a named field, from its attributes and the struct's
/// `optional_fields`. A field marking takes precedence over the struct's.
pub open spec fn named_field_form(
    skip: bool,
    has_override: bool,
    flatten: bool,
    inline: bool,
    struct_optional: Optional,
    field_optional: Optional,
) -> NamedFieldForm {
    if skip {
        NamedFieldForm::Skipped
    } else if has_override {
        NamedFieldForm::Override
    } else {
        let (annotation, nullable) = match (struct_optional, field_optional) {
            (_, Optional::Optional { nullable }) => (NamedAnnotation::CheckedOption, nullable),
            (Optional::Optional { nullable }, _) => (NamedAnnotation::IfOption, nullable),
            _ => (NamedAnnotation::Absent, true),
        };
        if flatten {
            NamedFieldForm::Flattened { inner: !nullable }
        } else {
            NamedFieldForm::Field { annotation, inner: !nullable, inline }
        }
    }
}

/// The optional marking that a field attribute carries.
pub open spec fn field_marking(attr: FieldAttr) -> Optional {
    if attr.optional.optional {
        Optional::Optional { nullable: attr.optional.nullable }
    } else {
        Optional::Inherit
    }
}

/// Decides how the field with these attributes is written.
pub fn field_form(attr: &FieldAttr, struct_optional: Optional) -> (r: NamedFieldForm)
    ensures
        r == named_field_form(
            attr.skip,
            attr.type_override is Some,
            attr.flatten,
            attr.inline,
            struct_optional,
            field_marking(*attr),
        ),
{
    if attr.skip {
        return NamedFieldForm::Skipped;
    }
    if attr.type_override.is_some() {
        return NamedFieldForm::Override;
    }
    let field_optional = if attr.optional.optional {
        Optional::Optional { nullable: attr.optional.nullable }
    } else {
        Optional::Inherit
    };
    let (annotation, nullable) = match (struct_optional, field_optional) {
        (_, Optional::Optional { nullable }) => (NamedAnnotation::CheckedOption, nullable),
        (Optional::Optional { nullable }, _) => (NamedAnnotation::IfOption, nullable),
        _ => (NamedAnnotation::Absent, true),
    };
    if attr.flatten {
        NamedFieldForm::Flattened { inner: !nullable }
    } else {
        NamedFieldForm::Field { annotation, inner: !nullable, inline: attr.inline }
    }
}

/// The name of the rust field before it is made a valid TypeScript field:
/// the rename, else the struct's `rename_all` applied, else the identifier
/// without `r#`.
pub open spec fn field_base_name(
    rename: Option<Seq<char>>,
    rename_all: Option<Inflection>,
    ident: Seq<char>,
) -> Seq<char> {
    match rename {
        Some(r) => r,
        None => match rename_all {
            Some(i) => inflect(i, strip_raw_prefix(ident)),
            None => strip_raw_prefix(ident),
        },
    }
}

/// The name written for a field: its base name, quoted when it is not a valid
/// TypeScript field name.
pub open spec fn field_name_spec(
    rename: Option<Seq<char>>,
    rename_all: Option<Inflection>,
    ident: Seq<char>,
) -> Seq<char> {
    ts_field(field_base_name(rename, rename_all, ident))
}

/// Computes the name written for a field.
pub fn field_name(rename: Option<&str>, rename_all: Option<Inflection>, ident: &str) -> (r: String)
    requires
        rename is None && rename_all is Some ==> inflect_defined(
            rename_all.unwrap(),
            strip_raw_prefix(ident@),
        ),
    ensures
        r@ == field_name_spec(
            match rename {
                Some(x) => Some(x@),
                None => None,
            },
            rename_all,
            ident@,
        ),
{
    let base = match rename {
        Some(r) => string_from(r),
        None => {
            let plain = to_ts_ident(ident);
            match rename_all {
                Some(i) => i.apply(plain.as_str()),
                None => plain,
            }
        },
    };
    raw_name_to_ts_field(base)
}

/// The text of a field: docs, name, annotation, `: ` and type.
pub open spec fn field_text(
    docs: Seq<char>,
    name: Seq<char>,
    annotation: Seq<char>,
    ty: Seq<char>,
) -> Seq<char> {
    docs_prefix(docs) + name + annotation + ": "@ + ty
}

/// Writes one field; `annotation` is `?` or empty, `ty` the field's type.
pub fn format_field(docs: &str, name: &str, annotation: &str, ty: &str) -> (r: String)
    ensures
        r@ == field_text(docs@, name@, annotation@, ty@),
{
    let mut s = String::new();
    if docs.unicode_len() > 0 {
        push_str(&mut s, "\n");
        push_str(&mut s, docs);
    }
    push_str(&mut s, name);
    push_str(&mut s, annotation);
    push_str(&mut s, ": ");
    push_str(&mut s, ty);
    proof {
        reveal_strlit("\n");
        assert(s@ =~= field_text(docs@, name@, annotation@, ty@));
    }
    s
}

/// The first field of an internally tagged variant: `"<tag>": "<name>"`.
pub open spec fn tag_field_text(tag: Seq<char>, ts_name: Seq<char>) -> Seq<char> {
    seq!['"'] + tag + "\": \""@ + ts_name + seq!['"']
}

/// Writes the tag field of an internally tagged variant.
pub fn format_tag_field(tag: &str, ts_name: &str) -> (r: String)
    ensures
        r@ == tag_field_text(tag@, ts_name@),
{
    let mut s = String::new();
    push_str(&mut s, "\"");
    push_str(&mut s, tag);
    push_str(&mut s, "\": \"");
    push_str(&mut s, ts_name);
    push_str(&mut s, "\"");
    proof {
        reveal_strlit("\"");
        assert(s@ =~= tag_field_text(tag@, ts_name@));
    }
    s
}

/// The object type before `{ ... } & { ... }` is merged: the fields in
/// braces, separated by `; `, the flattened types joined with `&`, or both joined with `&`. A
/// single flattened type stands alone, trimmed, and without the parentheses
/// around it when it has them.
pub open spec fn object_text(fields: Seq<Seq<char>>, flattened: Seq<Seq<char>>) -> Seq<char> {
    let f = joined(fields, "; "@);
    let fl = joined(flattened, " & "@);
    if fields.len() == 0 && flattened.len() == 0 {
        "{  }"@
    } else if flattened.len() == 0 {
        "{ "@ + f + " }"@
    } else if fields.len() == 0 && flattened.len() == 1 {
        if fl.len() > 0 && fl[0] == '(' && fl.last() == ')' {
            trimmed(fl.subrange(1, fl.len() - 1))
        } else {
            trimmed(fl)
        }
    } else if fields.len() == 0 {
        fl
    } else {
        "{ "@ + f + " } & "@ + fl
    }
}

/// The flattened form of the object type: as `object_text`, but a single
/// flattened type is kept as it is.
pub open spec fn object_flattened_text(fields: Seq<Seq<char>>, flattened: Seq<Seq<char>>) -> Seq<char> {
    let f = joined(fields, "; "@);
    let fl = joined(flattened, " & "@);
    if fields.len() == 0 && flattened.len() == 0 {
        "{  }"@
    } else if flattened.len() == 0 {
        "{ "@ + f + " }"@
    } else if fields.len() == 0 {
        fl
    } else {
        "{ "@ + f + " } & "@ + fl
    }
}

/// Merges `{ a } & { b }` into `{ a; b }`.
pub open spec fn merge_objects(s: Seq<char>) -> Seq<char> {
    replaced(s, " } & { "@, "; "@)
}

fn wrap_braces(fields: &Vec<String>) -> (r: String)
    ensures
        r@ == "{ "@ + joined(string_seq_views(fields@), "; "@) + " }"@,
{
    let mut s = string_from("{ ");
    let f = join(fields, "; ");
    push_str(&mut s, f.as_str());
    push_str(&mut s, " }");
    s
}

fn braces_and(fields: &Vec<String>, fl: &str) -> (r: String)
    ensures
        r@ == "{ "@ + joined(string_seq_views(fields@), "; "@) + " } & "@ + fl@,
{
    let mut s = string_from("{ ");
    let f = join(fields, "; ");
    push_str(&mut s, f.as_str());
    push_str(&mut s, " } & ");
    push_str(&mut s, fl);
    s
}

/// The inline TypeScript type of a struct with named fields, from the texts
/// of its fields and of its flattened fields.
pub fn named_inline(fields: &Vec<String>, flattened: &Vec<String>) -> (r: String)
    ensures
        r@ == merge_objects(object_text(string_seq_views(fields@), string_seq_views(flattened@))),
{
    let ghost fv = string_seq_views(fields@);
    let ghost flv = string_seq_views(flattened@);
    let fl = join(flattened, " & ");
    let text = if fields.len() == 0 && flattened.len() == 0 {
        string_from("{  }")
    } else if flattened.len() == 0 {
        wrap_braces(fields)
    } else if fields.len() == 0 && flattened.len() == 1 {
        let v = crate::text::chars_of(fl.as_str());
        let n = v.len();
        if n > 0 && v[0] == '(' && v[n - 1] == ')' {
            let inner = crate::text::string_of_range(&v, 1, n - 1);
            trim(inner.as_str())
        } else {
            trim(fl.as_str())
        }
    } else if fields.len() == 0 {
        fl
    } else {
        braces_and(fields, fl.as_str())
    };
    proof {
        reveal_strlit(" } & { ");
    }
    replace_all(text.as_str(), " } & { ", "; ")
}

/// The flattened TypeScript type of a struct with named fields.
pub fn named_inline_flattened(fields: &Vec<String>, flattened: &Vec<String>) -> (r: String)
    ensures
        r@ == merge_objects(
            object_flattened_text(string_seq_views(fields@), string_seq_views(flattened@)),
        ),
{
    let fl = join(flattened, " & ");
    let text = if fields.len() == 0 && flattened.len() == 0 {
        string_from("{  }")
    } else if flattened.len() == 0 {
        wrap_braces(fields)
    } else if fields.len() == 0 {
        fl
    } else {
        braces_and(fields, fl.as_str())
    };
    proof {
        reveal_strlit(" } & { ");
    }
    replace_all(text.as_str(), " } & { ", "; ")
}

/// What `#[ts(optional)]` does to a field (not skipped, no `type`): the
/// field gets `?` and, without `= nullable`, is written with the type inside
/// its `Option` (`t?: T` for `t: Option<T>`); with `= nullable` with the
/// `Option` itself (`t?: T | null`). A field without its own marking follows
/// the struct's `optional_fields` the same way, but gets `?` only when its
/// type is an `Option`; with neither, it has no `?` and keeps its type.
/// `flatten` keeps the same choice of type, `inline` is kept as given.
pub proof fn lemma_optional_marking_decides_the_field(attr: FieldAttr, struct_optional: Optional)
    requires
        !attr.skip,
        attr.type_override is None,
    ensures
        ({
            let r = named_field_form(
                attr.skip,
                attr.type_override is Some,
                attr.flatten,
                attr.inline,
                struct_optional,
                field_marking(attr),
            );
            let (annotation, inner) = if attr.optional.optional {
                (NamedAnnotation::CheckedOption, !attr.optional.nullable)
            } else if struct_optional is Optional {
                (NamedAnnotation::IfOption, !struct_optional->nullable)
            } else {
                (NamedAnnotation::Absent, false)
            };
            if attr.flatten {
                r == NamedFieldForm::Flattened { inner }
            } else {
                r == NamedFieldForm::Field { annotation, inner, inline: attr.inline }
            }
        }),
{
}

/// A skipped field is left out and a field with `type = ".."` is written with
/// that text, whatever else is set.
pub proof fn lemma_skip_and_override_win(attr: FieldAttr, struct_optional: Optional)
    ensures
        attr.skip ==> named_field_form(
            attr.skip,
            attr.type_override is Some,
            attr.flatten,
            attr.inline,
            struct_optional,
            field_marking(attr),
        ) == NamedFieldForm::Skipped,
        !attr.skip && attr.type_override is Some ==> named_field_form(
            attr.skip,
            attr.type_override is Some,
            attr.flatten,
            attr.inline,
            struct_optional,
            field_marking(attr),
        ) == NamedFieldForm::Override,
{
}

} // verus!
