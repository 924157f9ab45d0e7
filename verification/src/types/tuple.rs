//! Structs with several unnamed fields: a TypeScript tuple.
use vstd::prelude::*;

use crate::attr::field::FieldAttr;
use crate::optional::{optional_decision, FieldType, Optional, OptionalAnnotation};
use crate::text::{join, joined, push_str, string_from, string_seq_views};
use crate::types::named::field_marking;

verus! {

/// Where the text of a tuple element comes from.
#[derive(Clone, Copy, Debug, PartialEq, Eq, Structural)]
pub enum ElementSource {
    /// The field's `type = "..."` text.
    Override,
    /// The field's type, inlined.
    Inline,
    /// The field's type, by name.
    Name,
}

/// How a tuple element is written; `None` when the field is skipped.
#[derive(Clone, Copy, Debug, PartialEq, Eq, Structural)]
pub struct ElementForm {
    pub optional: OptionalAnnotation,
    pub ty: FieldType,
    pub source: ElementSource,
}

/// How a tuple element is written, from its attributes and its struct's optional marking; nothing when it is skipped.
pub open spec fn element_form_spec(attr: FieldAttr, struct_optional: Optional) -> Option<ElementForm> {
    if attr.skip {
        None
    } else {
        let (optional, ty) = optional_decision(
            struct_optional,
            field_marking(attr),
            attr.type_override is Some,
            false,
            false,
        );
        Some(
            ElementForm {
                optional,
                ty,
                source: if attr.type_override is Some {
                    ElementSource::Override
                } else if attr.inline {
                    ElementSource::Inline
                } else {
                    ElementSource::Name
                },
            },
        )
    }
}

/// Decides how the tuple field with these attributes is written.
pub fn element_form(attr: &FieldAttr, struct_optional: Optional) -> (r: Option<ElementForm>)
    ensures
        r == element_form_spec(*attr, struct_optional),
{
    if attr.skip {
        return None;
    }
    let field_optional = if attr.optional.optional {
        Optional::Optional { nullable: attr.optional.nullable }
    } else {
        Optional::Inherit
    };
    let (optional, ty) = crate::optional::apply(
        struct_optional,
        field_optional,
        attr.type_override.is_some(),
        false,
        false,
    );
    let source = if attr.type_override.is_some() {
        ElementSource::Override
    } else if attr.inline {
        ElementSource::Inline
    } else {
        ElementSource::Name
    };
    Some(ElementForm { optional, ty, source })
}

/// An element: `(<type>)?` when it may be left out, else the type.
pub open spec fn element_text(optional: bool, ty: Seq<char>) -> Seq<char> {
    if optional {
        seq!['('] + ty + ")?"@
    } else {
        ty
    }
}

/// Writes one element of the tuple.
pub fn format_element(optional: bool, ty: &str) -> (r: String)
    ensures
        r@ == element_text(optional, ty@),
{
    if optional {
        let mut s = string_from("(");
        push_str(&mut s, ty);
        push_str(&mut s, ")?");
        proof {
            reveal_strlit("(");
            assert(s@ =~= element_text(optional, ty@));
        }
        s
    } else {
        string_from(ty)
    }
}

/// The tuple: the elements between brackets, separated by `, `.
pub open spec fn tuple_text(elements: Seq<Seq<char>>) -> Seq<char> {
    seq!['['] + joined(elements, ", "@) + seq![']']
}

/// Writes the TypeScript tuple of the given elements.
pub fn tuple_inline(elements: &Vec<String>) -> (r: String)
    ensures
        r@ == tuple_text(string_seq_views(elements@)),
{
    let mut s = string_from("[");
    let j = join(elements, ", ");
    push_str(&mut s, j.as_str());
    push_str(&mut s, "]");
    proof {
        reveal_strlit("[");
        reveal_strlit("]");
        assert(s@ =~= tuple_text(string_seq_views(elements@)));
    }
    s
}

/// How a tuple element is written: a skipped field leaves no element; a
/// `type = ".."` text wins over `inline`, which wins over the type's name.
/// An element marked `#[ts(optional)]` gets `?` (checked to be an `Option`)
/// and the type inside its `Option`, or the `Option` itself with
/// `= nullable`; an unmarked element follows the struct's `optional_fields`
/// likewise unless its type is overridden; otherwise it gets no `?` and keeps
/// its type.
pub proof fn lemma_tuple_element_forms(attr: FieldAttr, struct_optional: Optional)
    ensures
        attr.skip <==> element_form_spec(attr, struct_optional) is None,
        !attr.skip ==> ({
            let f = element_form_spec(attr, struct_optional)->Some_0;
            &&& f.source == if attr.type_override is Some {
                ElementSource::Override
            } else if attr.inline {
                ElementSource::Inline
            } else {
                ElementSource::Name
            }
            &&& attr.optional.optional ==> f.optional == OptionalAnnotation::CheckedOption && f.ty == if attr.optional.nullable {
                FieldType::AsIs
            } else {
                FieldType::OptionInner
            }
            &&& !attr.optional.optional && struct_optional is Optional && attr.type_override is None ==> f.optional
                == OptionalAnnotation::IfOption && f.ty == if struct_optional->nullable {
                FieldType::AsIs
            } else {
                FieldType::OptionInner
            }
            &&& !attr.optional.optional && (!(struct_optional is Optional) || attr.type_override is Some) ==> f.optional
                == OptionalAnnotation::Fixed(false) && f.ty == FieldType::AsIs
        }),
{
}

} // verus!
