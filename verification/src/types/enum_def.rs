//! Enums: how each variant is written under the enum's tagging, and the
//! union of the variants.
use vstd::prelude::*;

use crate::attr::enum_attr::TaggingKind;
use crate::inflection::{inflect, inflect_defined, Inflection};
use crate::text::{join, joined, push_str, string_from, string_seq_views};

verus! {

/// How the variants of a TypeScript `enum` are written.
#[derive(Clone, Copy, Debug, PartialEq, Eq, Structural)]
pub enum Repr {
    /// By the variant's integer value, where it has one.
    Int,
    /// By the variant's name.
    Name,
}

/// The fields of a variant, as far as its form depends on them.
#[derive(Clone, Copy, Debug, PartialEq, Eq, Structural)]
pub enum VariantFields {
    Unit,
    /// One unnamed field; `skip` when that field is skipped.
    Newtype { skip: bool },
    /// Named fields, or several unnamed ones.
    Other,
}

/// The form of a variant's TypeScript type. `name` is the variant's name,
/// `ty` its type, `field` the type of its single field, `tag` and `content`
/// the names chosen by the enum's attributes.
#[derive(Clone, Copy, Debug, PartialEq, Eq, Structural)]
pub enum VariantForm {
    /// `ty` as it is.
    Type,
    /// `"name"`.
    Name,
    /// `{ "name": ty }`; with `optional` also a form in which the other
    /// variants' names are `never`.
    External { optional: bool },
    /// `{ "tag": "name" }`.
    TagOnly,
    /// `{ "tag": "name", "content": ty }`, or `field` in place of `ty`.
    Adjacent { field: bool },
    /// `{ "tag": "name" } & ty`, or `field` in place of `ty`.
    Internal { field: bool },
    /// `"name" = value` (a TypeScript enum member with its value).
    ReprValue,
    /// `"name" = "name"`.
    ReprName,
}

/// The form of a variant, from the enum's `repr` and tagging, the variant's
/// `untagged`, its fields, and whether its own type has a flattened form.
pub open spec fn variant_form_spec(
    repr: Option<Repr>,
    has_discriminant: bool,
    untagged: bool,
    tagging: TaggingKind,
    fields: VariantFields,
    flattened: bool,
) -> VariantForm {
    match repr {
        Some(Repr::Int) => if has_discriminant {
            VariantForm::ReprValue
        } else {
            VariantForm::Name
        },
        Some(Repr::Name) => VariantForm::ReprName,
        None => if untagged || tagging == TaggingKind::Untagged {
            VariantForm::Type
        } else {
            match tagging {
                TaggingKind::Externally => match fields {
                    VariantFields::Unit => VariantForm::Name,
                    VariantFields::Newtype { skip } => if skip {
                        VariantForm::Name
                    } else {
                        VariantForm::External { optional: true }
                    },
                    VariantFields::Other => VariantForm::External { optional: false },
                },
                TaggingKind::Adjacently => match fields {
                    VariantFields::Unit => VariantForm::TagOnly,
                    VariantFields::Newtype { skip } => if skip {
                        VariantForm::TagOnly
                    } else {
                        VariantForm::Adjacent { field: true }
                    },
                    VariantFields::Other => VariantForm::Adjacent { field: false },
                },
                _ => if flattened {
                    VariantForm::Type
                } else {
                    match fields {
                        VariantFields::Unit => VariantForm::TagOnly,
                        VariantFields::Newtype { skip } => if skip {
                            VariantForm::TagOnly
                        } else {
                            VariantForm::Internal { field: true }
                        },
                        VariantFields::Other => VariantForm::Internal { field: false },
                    }
                },
            }
        },
    }
}

/// Decides the form of a variant.
pub fn variant_form(
    repr: Option<Repr>,
    has_discriminant: bool,
    untagged: bool,
    tagging: TaggingKind,
    fields: VariantFields,
    flattened: bool,
) -> (r: VariantForm)
    ensures
        r == variant_form_spec(repr, has_discriminant, untagged, tagging, fields, flattened),
{
    match repr {
        Some(Repr::Int) => {
            return if has_discriminant {
                VariantForm::ReprValue
            } else {
                VariantForm::Name
            };
        },
        Some(Repr::Name) => {
            return VariantForm::ReprName;
        },
        None => {},
    }
    if untagged {
        return VariantForm::Type;
    }
    match tagging {
        TaggingKind::Untagged => VariantForm::Type,
        TaggingKind::Externally => match fields {
            VariantFields::Unit => VariantForm::Name,
            VariantFields::Newtype { skip } => if skip {
                VariantForm::Name
            } else {
                VariantForm::External { optional: true }
            },
            VariantFields::Other => VariantForm::External { optional: false },
        },
        TaggingKind::Adjacently => match fields {
            VariantFields::Unit => VariantForm::TagOnly,
            VariantFields::Newtype { skip } => if skip {
                VariantForm::TagOnly
            } else {
                VariantForm::Adjacent { field: true }
            },
            VariantFields::Other => VariantForm::Adjacent { field: false },
        },
        TaggingKind::Internally => if flattened {
            VariantForm::Type
        } else {
            match fields {
                VariantFields::Unit => VariantForm::TagOnly,
                VariantFields::Newtype { skip } => if skip {
                    VariantForm::TagOnly
                } else {
                    VariantForm::Internal { field: true }
                },
                VariantFields::Other => VariantForm::Internal { field: false },
            }
        },
    }
}

/// `s` in double quotes.
pub open spec fn quoted(s: Seq<char>) -> Seq<char> {
    seq!['"'] + s + seq!['"']
}

/// The texts a variant's form is filled with.
pub struct VariantPieces {
    /// The variant's TypeScript name.
    pub name: String,
    /// The variant's type.
    pub ty: String,
    /// The type of its single field.
    pub field: String,
    /// The tag's name.
    pub tag: String,
    /// The content's name.
    pub content: String,
    /// The variant's value, for `ReprValue`.
    pub value: String,
}

/// `"name"?: never`, for the optional form of an externally tagged variant.
pub open spec fn never_text(name: Seq<char>) -> Seq<char> {
    quoted(name) + "?: never"@
}

/// The text of a variant in the given form.
pub open spec fn variant_text(form: VariantForm, p: VariantPieces) -> Seq<char> {
    let name = p.name@;
    match form {
        VariantForm::Type => p.ty@,
        VariantForm::Name => quoted(name),
        VariantForm::External { .. } => "{ "@ + quoted(name) + ": "@ + p.ty@ + " }"@,
        VariantForm::TagOnly => "{ "@ + quoted(p.tag@) + ": "@ + quoted(name) + " }"@,
        VariantForm::Adjacent { field } => "{ "@ + quoted(p.tag@) + ": "@ + quoted(name) + ", "@
            + quoted(p.content@) + ": "@ + (if field {
            p.field@
        } else {
            p.ty@
        }) + " }"@,
        VariantForm::Internal { field } => "{ "@ + quoted(p.tag@) + ": "@ + quoted(name) + " } & "@
            + (if field {
            p.field@
        } else {
            p.ty@
        }),
        VariantForm::ReprValue => quoted(name) + " = "@ + p.value@,
        VariantForm::ReprName => quoted(name) + " = "@ + quoted(name),
    }
}

/// The optional form of a variant, where it has one: `{ "name": ty; "name"?: never }`.
pub open spec fn variant_optional_text(form: VariantForm, p: VariantPieces) -> Option<Seq<char>> {
    match form {
        VariantForm::External { optional } => if optional {
            Some("{ "@ + quoted(p.name@) + ": "@ + p.ty@ + "; "@ + never_text(p.name@) + " }"@)
        } else {
            None
        },
        _ => None,
    }
}

/// The texts that one variant adds to the enum.
pub struct VariantText {
    pub formatted: String,
    /// The optional form and the `never` member that goes with it.
    pub optional: Option<(String, String)>,
}

fn push_quoted(s: &mut String, t: &str)
    ensures
        final(s)@ == old(s)@ + quoted(t@),
{
    push_str(s, "\"");
    push_str(s, t);
    push_str(s, "\"");
    proof {
        reveal_strlit("\"");
        assert(final(s)@ =~= old(s)@ + quoted(t@));
    }
}

/// Writes a variant in the given form.
pub fn format_variant(form: VariantForm, p: &VariantPieces) -> (r: VariantText)
    ensures
        r.formatted@ == variant_text(form, *p),
        match variant_optional_text(form, *p) {
            Some(t) => r.optional matches Some(o) && o.0@ == t && o.1@ == never_text(p.name@),
            None => r.optional is None,
        },
{
    let name = p.name.as_str();
    let mut s = String::new();
    let mut optional: Option<(String, String)> = None;
    match form {
        VariantForm::Type => {
            push_str(&mut s, p.ty.as_str());
        },
        VariantForm::Name => {
            push_quoted(&mut s, name);
        },
        VariantForm::External { optional: with_optional } => {
            push_str(&mut s, "{ ");
            push_quoted(&mut s, name);
            push_str(&mut s, ": ");
            push_str(&mut s, p.ty.as_str());
            push_str(&mut s, " }");
            if with_optional {
                let mut never = String::new();
                push_quoted(&mut never, name);
                push_str(&mut never, "?: never");
                let mut o = String::new();
                push_str(&mut o, "{ ");
                push_quoted(&mut o, name);
                push_str(&mut o, ": ");
                push_str(&mut o, p.ty.as_str());
                push_str(&mut o, "; ");
                push_str(&mut o, never.as_str());
                push_str(&mut o, " }");
                proof {
                    assert(never@ =~= never_text(p.name@));
                }
                optional = Some((o, never));
            }
        },
        VariantForm::TagOnly => {
            push_str(&mut s, "{ ");
            push_quoted(&mut s, p.tag.as_str());
            push_str(&mut s, ": ");
            push_quoted(&mut s, name);
            push_str(&mut s, " }");
        },
        VariantForm::Adjacent { field } => {
            push_str(&mut s, "{ ");
            push_quoted(&mut s, p.tag.as_str());
            push_str(&mut s, ": ");
            push_quoted(&mut s, name);
            push_str(&mut s, ", ");
            push_quoted(&mut s, p.content.as_str());
            push_str(&mut s, ": ");
            if field {
                push_str(&mut s, p.field.as_str());
            } else {
                push_str(&mut s, p.ty.as_str());
            }
            push_str(&mut s, " }");
        },
        VariantForm::Internal { field } => {
            push_str(&mut s, "{ ");
            push_quoted(&mut s, p.tag.as_str());
            push_str(&mut s, ": ");
            push_quoted(&mut s, name);
            push_str(&mut s, " } & ");
            if field {
                push_str(&mut s, p.field.as_str());
            } else {
                push_str(&mut s, p.ty.as_str());
            }
        },
        VariantForm::ReprValue => {
            push_quoted(&mut s, name);
            push_str(&mut s, " = ");
            push_str(&mut s, p.value.as_str());
        },
        VariantForm::ReprName => {
            push_quoted(&mut s, name);
            push_str(&mut s, " = ");
            push_quoted(&mut s, name);
        },
    }
    proof {
        assert(s@ =~= variant_text(form, *p));
    }
    VariantText { formatted: s, optional }
}

/// The enum's inline type: the variants joined by `, ` for a TypeScript
/// `enum`, else by ` | `; `never` when there are no variants.
pub open spec fn enum_inline_text(variants: Seq<Seq<char>>, repr: bool, empty: bool) -> Seq<char> {
    if empty {
        "never"@
    } else {
        joined(variants, if repr { ", "@ } else { " | "@ })
    }
}

/// The enum's flattened type: the union in parentheses.
pub open spec fn enum_flattened_text(variants: Seq<Seq<char>>) -> Seq<char> {
    seq!['('] + joined(variants, " | "@) + seq![')']
}

/// The enum's optional flattened type: the optional forms, then an object in
/// which all of those names are `never`.
pub open spec fn enum_optional_flattened_text(optional: Seq<Seq<char>>, never: Seq<Seq<char>>) -> Seq<char> {
    seq!['('] + joined(optional, " | "@) + " | { "@ + joined(never, "; "@) + " })"@
}

/// Writes the enum's inline type from its variants' texts. `empty` is for an
/// enum that has no variants at all.
pub fn enum_inline(variants: &Vec<String>, repr: bool, empty: bool) -> (r: String)
    ensures
        r@ == enum_inline_text(string_seq_views(variants@), repr, empty),
{
    if empty {
        string_from("never")
    } else if repr {
        join(variants, ", ")
    } else {
        join(variants, " | ")
    }
}

/// Writes the enum's flattened type.
pub fn enum_inline_flattened(variants: &Vec<String>) -> (r: String)
    ensures
        r@ == enum_flattened_text(string_seq_views(variants@)),
{
    let mut s = string_from("(");
    let j = join(variants, " | ");
    push_str(&mut s, j.as_str());
    push_str(&mut s, ")");
    proof {
        reveal_strlit("(");
        reveal_strlit(")");
        assert(s@ =~= enum_flattened_text(string_seq_views(variants@)));
    }
    s
}

/// Writes the enum's optional flattened type.
pub fn enum_optional_inline_flattened(optional: &Vec<String>, never: &Vec<String>) -> (r: String)
    ensures
        r@ == enum_optional_flattened_text(string_seq_views(optional@), string_seq_views(never@)),
{
    let mut s = string_from("(");
    let a = join(optional, " | ");
    push_str(&mut s, a.as_str());
    push_str(&mut s, " | { ");
    let b = join(never, "; ");
    push_str(&mut s, b.as_str());
    push_str(&mut s, " })");
    proof {
        reveal_strlit("(");
        assert(s@ =~= enum_optional_flattened_text(string_seq_views(optional@), string_seq_views(never@)));
    }
    s
}

/// The formatted texts of the variants, skipped ones (`None`) left out.
pub open spec fn formatted_views(v: Seq<Option<VariantText>>) -> Seq<Seq<char>>
    decreases v.len(),
{
    if v.len() == 0 {
        Seq::empty()
    } else {
        match v.last() {
            Some(t) => formatted_views(v.drop_last()).push(t.formatted@),
            None => formatted_views(v.drop_last()),
        }
    }
}

/// The optional forms among the variants, in order.
pub open spec fn optional_views(v: Seq<Option<VariantText>>) -> Seq<Seq<char>>
    decreases v.len(),
{
    if v.len() == 0 {
        Seq::empty()
    } else {
        match v.last() {
            Some(t) => match t.optional {
                Some(o) => optional_views(v.drop_last()).push(o.0@),
                None => optional_views(v.drop_last()),
            },
            None => optional_views(v.drop_last()),
        }
    }
}

/// The `never` members that go with the optional forms, in order.
pub open spec fn never_views(v: Seq<Option<VariantText>>) -> Seq<Seq<char>>
    decreases v.len(),
{
    if v.len() == 0 {
        Seq::empty()
    } else {
        match v.last() {
            Some(t) => match t.optional {
                Some(o) => never_views(v.drop_last()).push(o.1@),
                None => never_views(v.drop_last()),
            },
            None => never_views(v.drop_last()),
        }
    }
}

/// The texts of an enum's TypeScript type.
pub struct EnumTexts {
    pub inline: String,
    /// Absent for a TypeScript `enum`.
    pub inline_flattened: Option<String>,
    /// Present when some variant has an optional form and this is no TypeScript `enum`.
    pub optional_inline_flattened: Option<String>,
}

/// Assembles the enum's texts from those of its variants, where a skipped
/// variant is `None` and adds nothing; `repr` for a TypeScript `enum`.
pub fn assemble_enum(variants: &Vec<Option<VariantText>>, repr: bool) -> (r: EnumTexts)
    ensures
        r.inline@ == enum_inline_text(formatted_views(variants@), repr, false),
        match r.inline_flattened {
            Some(f) => !repr && f@ == enum_flattened_text(formatted_views(variants@)),
            None => repr,
        },
        match r.optional_inline_flattened {
            Some(f) => !repr && optional_views(variants@).len() > 0 && f@ == enum_optional_flattened_text(
                optional_views(variants@),
                never_views(variants@),
            ),
            None => repr || optional_views(variants@).len() == 0,
        },
{
    let mut formatted: Vec<String> = Vec::new();
    let mut optional: Vec<String> = Vec::new();
    let mut never: Vec<String> = Vec::new();
    let mut i: usize = 0;
    while i < variants.len()
        invariant
            i <= variants@.len(),
            string_seq_views(formatted@) == formatted_views(variants@.take(i as int)),
            string_seq_views(optional@) == optional_views(variants@.take(i as int)),
            string_seq_views(never@) == never_views(variants@.take(i as int)),
        decreases variants@.len() - i,
    {
        let ghost t = variants@.take(i + 1);
        proof {
            assert(t.drop_last() =~= variants@.take(i as int));
            assert(t.last() == variants@[i as int]);
        }
        match &variants[i] {
            Some(v) => {
                let ghost f0 = formatted@;
                formatted.push(crate::text::string_from(v.formatted.as_str()));
                proof {
                    assert(string_seq_views(formatted@) =~= string_seq_views(f0).push(v.formatted@));
                }
                match &v.optional {
                    Some(o) => {
                        let ghost o0 = optional@;
                        let ghost n0 = never@;
                        optional.push(crate::text::string_from(o.0.as_str()));
                        never.push(crate::text::string_from(o.1.as_str()));
                        proof {
                            assert(string_seq_views(optional@) =~= string_seq_views(o0).push(o.0@));
                            assert(string_seq_views(never@) =~= string_seq_views(n0).push(o.1@));
                        }
                    },
                    None => {},
                }
            },
            None => {},
        }
        i = i + 1;
    }
    proof {
        assert(variants@.take(variants@.len() as int) =~= variants@);
    }
    let inline = enum_inline(&formatted, repr, false);
    let inline_flattened = if repr {
        None
    } else {
        Some(enum_inline_flattened(&formatted))
    };
    let optional_inline_flattened = if !repr && optional.len() > 0 {
        Some(enum_optional_inline_flattened(&optional, &never))
    } else {
        None
    };
    EnumTexts { inline, inline_flattened, optional_inline_flattened }
}

/// The name of a variant without a `rename`: the enum's `rename_all` applied
/// to its identifier, else the identifier itself.
pub open spec fn variant_name_spec(rename_all: Option<Inflection>, ident: Seq<char>) -> Seq<char> {
    match rename_all {
        Some(i) => inflect(i, ident),
        None => ident,
    }
}

/// Computes the name of a variant that has no `rename` (a `rename` wins over
/// the enum's `rename_all`, and is used as it is written).
pub fn variant_name(rename_all: Option<Inflection>, ident: &str) -> (r: String)
    requires
        rename_all is Some ==> inflect_defined(rename_all.unwrap(), ident@),
    ensures
        r@ == variant_name_spec(rename_all, ident@),
{
    match rename_all {
        Some(i) => i.apply(ident),
        None => string_from(ident),
    }
}

/// Each variant with an optional form brings exactly one `never` member, in
/// the same place: the two lists stay in step.
pub proof fn lemma_optional_never_in_step(v: Seq<Option<VariantText>>)
    ensures
        optional_views(v).len() == never_views(v).len(),
    decreases v.len(),
{
    if v.len() > 0 {
        lemma_optional_never_in_step(v.drop_last());
    }
}

/// A skipped variant changes nothing: the texts of the variants before and
/// after it are those the enum has without it.
pub proof fn lemma_skipped_variant_adds_nothing(a: Seq<Option<VariantText>>, b: Seq<Option<VariantText>>)
    ensures
        formatted_views(a + seq![None] + b) == formatted_views(a + b),
        optional_views(a + seq![None] + b) == optional_views(a + b),
        never_views(a + seq![None] + b) == never_views(a + b),
    decreases b.len(),
{
    if b.len() == 0 {
        assert((a + seq![None] + b).drop_last() =~= a);
        assert(a + b =~= a);
    } else {
        lemma_skipped_variant_adds_nothing(a, b.drop_last());
        assert((a + seq![None] + b).drop_last() =~= a + seq![None] + b.drop_last());
        assert((a + b).drop_last() =~= a + b.drop_last());
        assert((a + seq![None] + b).last() == b.last());
        assert((a + b).last() == b.last());
    }
}

/// How each tagging writes a variant (no `repr`, the variant not itself
/// `untagged`). Adjacently tagged: `{ "<tag>": "<name>" }` for a variant
/// without content (a unit variant, or a newtype whose field is skipped), and
/// otherwise `{ "<tag>": "<name>", "<content>": <type> }`, with the single
/// field's type for a newtype and the variant's own type for named or several
/// fields. Externally tagged: the quoted name without content, else
/// `{ "<name>": <type> }` (a newtype with its optional form too). Internally
/// tagged: the variant's own type when it has a flattened form, else the tag
/// alone without content, else the tag `&` the content's type.
pub proof fn lemma_variant_forms_by_tagging(
    has_discriminant: bool,
    fields: VariantFields,
    flattened: bool,
    p: VariantPieces,
)
    ensures
        ({
            let f = variant_form_spec(None, has_discriminant, false, TaggingKind::Adjacently, fields, flattened);
            let head = "{ "@ + quoted(p.tag@) + ": "@ + quoted(p.name@);
            match fields {
                VariantFields::Other => f == VariantForm::Adjacent { field: false } && variant_text(f, p)
                    == head + ", "@ + quoted(p.content@) + ": "@ + p.ty@ + " }"@,
                VariantFields::Newtype { skip: false } => f == VariantForm::Adjacent { field: true }
                    && variant_text(f, p) == head + ", "@ + quoted(p.content@) + ": "@ + p.field@ + " }"@,
                _ => f == VariantForm::TagOnly && variant_text(f, p) == head + " }"@,
            }
        }),
        ({
            let f = variant_form_spec(None, has_discriminant, false, TaggingKind::Externally, fields, flattened);
            match fields {
                VariantFields::Other => f == VariantForm::External { optional: false } && variant_text(f, p)
                    == "{ "@ + quoted(p.name@) + ": "@ + p.ty@ + " }"@,
                VariantFields::Newtype { skip: false } => f == VariantForm::External { optional: true }
                    && variant_text(f, p) == "{ "@ + quoted(p.name@) + ": "@ + p.ty@ + " }"@
                    && variant_optional_text(f, p) is Some,
                _ => f == VariantForm::Name && variant_text(f, p) == quoted(p.name@),
            }
        }),
        ({
            let f = variant_form_spec(None, has_discriminant, false, TaggingKind::Internally, fields, flattened);
            let head = "{ "@ + quoted(p.tag@) + ": "@ + quoted(p.name@);
            if flattened {
                f == VariantForm::Type && variant_text(f, p) == p.ty@
            } else {
                match fields {
                    VariantFields::Other => f == VariantForm::Internal { field: false } && variant_text(f, p)
                        == head + " } & "@ + p.ty@,
                    VariantFields::Newtype { skip: false } => f == VariantForm::Internal { field: true }
                        && variant_text(f, p) == head + " } & "@ + p.field@,
                    _ => f == VariantForm::TagOnly && variant_text(f, p) == head + " }"@,
                }
            }
        }),
{
}

/// What wins over the tagging: a `repr` writes the variant as an enum member
/// (`"<name>" = <value>` with a discriminant, else `"<name>"`, or
/// `"<name>" = "<name>"` for names); otherwise an `untagged` variant or enum
/// is its own type, whatever its fields.
pub proof fn lemma_repr_and_untagged_win(
    has_discriminant: bool,
    untagged: bool,
    tagging: TaggingKind,
    fields: VariantFields,
    flattened: bool,
)
    ensures
        variant_form_spec(Some(Repr::Int), has_discriminant, untagged, tagging, fields, flattened) == if has_discriminant {
            VariantForm::ReprValue
        } else {
            VariantForm::Name
        },
        variant_form_spec(Some(Repr::Name), has_discriminant, untagged, tagging, fields, flattened)
            == VariantForm::ReprName,
        untagged || tagging == TaggingKind::Untagged ==> variant_form_spec(
            None,
            has_discriminant,
            untagged,
            tagging,
            fields,
            flattened,
        ) == VariantForm::Type,
{
}

/// An enum with variants is their union: for a TypeScript type (no `repr`)
/// the flattened form is that same union in parentheses, and the variants
/// show up in it in order, separated by ` | `; a TypeScript `enum` separates
/// them by `, `; an enum without variants is `never`.
pub proof fn lemma_enum_is_the_union(variants: Seq<Seq<char>>, repr: bool)
    ensures
        enum_flattened_text(variants) == seq!['('] + enum_inline_text(variants, false, false) + seq![')'],
        enum_inline_text(variants, repr, true) == "never"@,
        enum_inline_text(variants, false, false) == joined(variants, " | "@),
        enum_inline_text(variants, true, false) == joined(variants, ", "@),
{
}

} // verus!
