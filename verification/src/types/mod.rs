//! The TypeScript types derived from Rust items: what is decided for each
//! item and field, and the text assembled from the parts.
pub mod enum_def;
pub mod function;
pub mod named;
pub mod newtype;
pub mod tuple;

use vstd::prelude::*;

use crate::attr::struct_attr::{StructAttr, StructAttrError};

verus! {

/// The fields of a struct or variant, by kind and number.
#[derive(Clone, Copy, Debug, PartialEq, Eq, Structural)]
pub enum FieldsShape {
    Named(usize),
    Unnamed(usize),
    Unit,
}

/// Which kind of TypeScript type a struct or variant becomes.
#[derive(Clone, Copy, Debug, PartialEq, Eq, Structural)]
pub enum TypeDefKind {
    /// The `type = "..."` text as it is.
    Override,
    /// The type given with `as = ...`, inlined.
    As,
    /// No named fields and no tag: `Record<symbol, never>`.
    EmptyObject,
    /// An object type with the fields.
    Named,
    /// `()`-style struct without fields: `never[]`.
    EmptyArray,
    /// One unnamed field: that field's type.
    Newtype,
    /// Several unnamed fields: a TypeScript tuple.
    Tuple,
    /// A unit struct: `null`.
    Null,
}

/// The kind a struct with these attributes and fields becomes: an override
/// or `as` first, then by the fields.
pub open spec fn type_def_kind(has_override: bool, has_as: bool, has_tag: bool, shape: FieldsShape) -> TypeDefKind {
    if has_override {
        TypeDefKind::Override
    } else if has_as {
        TypeDefKind::As
    } else {
        match shape {
            FieldsShape::Named(n) => if n == 0 && !has_tag {
                TypeDefKind::EmptyObject
            } else {
                TypeDefKind::Named
            },
            FieldsShape::Unnamed(n) => if n == 0 {
                TypeDefKind::EmptyArray
            } else if n == 1 {
                TypeDefKind::Newtype
            } else {
                TypeDefKind::Tuple
            },
            FieldsShape::Unit => TypeDefKind::Null,
        }
    }
}

/// Checks the struct attributes against the fields, then decides the kind of
/// type.
pub fn type_def(attr: &StructAttr, shape: FieldsShape) -> (r: Result<TypeDefKind, StructAttrError>)
    ensures
        match attr.validity(shape is Named) {
            Some(e) => r == Err::<TypeDefKind, StructAttrError>(e),
            None => r == Ok::<TypeDefKind, StructAttrError>(
                type_def_kind(attr.type_override is Some, attr.type_as is Some, attr.tag is Some, shape),
            ),
        },
{
    let named = match shape {
        FieldsShape::Named(_) => true,
        _ => false,
    };
    match attr.assert_validity(named) {
        Err(e) => return Err(e),
        Ok(()) => {},
    }
    if attr.type_override.is_some() {
        return Ok(TypeDefKind::Override);
    }
    if attr.type_as.is_some() {
        return Ok(TypeDefKind::As);
    }
    let kind = match shape {
        FieldsShape::Named(n) => if n == 0 && attr.tag.is_none() {
            TypeDefKind::EmptyObject
        } else {
            TypeDefKind::Named
        },
        FieldsShape::Unnamed(n) => if n == 0 {
            TypeDefKind::EmptyArray
        } else if n == 1 {
            TypeDefKind::Newtype
        } else {
            TypeDefKind::Tuple
        },
        FieldsShape::Unit => TypeDefKind::Null,
    };
    Ok(kind)
}

/// The fixed inline text of the kinds that have one.
pub open spec fn fixed_inline(kind: TypeDefKind) -> Option<Seq<char>> {
    match kind {
        TypeDefKind::EmptyObject => Some("Record<symbol, never>"@),
        TypeDefKind::EmptyArray => Some("never[]"@),
        TypeDefKind::Null => Some("null"@),
        _ => None,
    }
}

/// The fixed flattened text of the kinds that have one.
pub open spec fn fixed_inline_flattened(kind: TypeDefKind) -> Option<Seq<char>> {
    match kind {
        TypeDefKind::EmptyObject | TypeDefKind::Null => Some("{ }"@),
        _ => None,
    }
}

/// The inline text of a kind that has a fixed one.
pub fn fixed_inline_text(kind: TypeDefKind) -> (r: Option<&'static str>)
    ensures
        match r {
            Some(s) => fixed_inline(kind) == Some(s@),
            None => fixed_inline(kind) is None,
        },
{
    match kind {
        TypeDefKind::EmptyObject => Some("Record<symbol, never>"),
        TypeDefKind::EmptyArray => Some("never[]"),
        TypeDefKind::Null => Some("null"),
        _ => None,
    }
}

/// The flattened text of a kind that has a fixed one.
pub fn fixed_inline_flattened_text(kind: TypeDefKind) -> (r: Option<&'static str>)
    ensures
        match r {
            Some(s) => fixed_inline_flattened(kind) == Some(s@),
            None => fixed_inline_flattened(kind) is None,
        },
{
    match kind {
        TypeDefKind::EmptyObject | TypeDefKind::Null => Some("{ }"),
        _ => None,
    }
}

/// Which type a struct becomes follows its fields: a `type` override wins,
/// then `as`; otherwise a struct with named fields is an object, and the
/// empty object only when it has no field and no tag; one unnamed field gives
/// that field's type, two or more a tuple, none `never[]`; a unit struct is
/// `null`.
pub proof fn lemma_kind_follows_the_fields(has_override: bool, has_as: bool, has_tag: bool, shape: FieldsShape)
    ensures
        has_override ==> type_def_kind(has_override, has_as, has_tag, shape) == TypeDefKind::Override,
        !has_override && has_as ==> type_def_kind(has_override, has_as, has_tag, shape) == TypeDefKind::As,
        !has_override && !has_as ==> ({
            let k = type_def_kind(has_override, has_as, has_tag, shape);
            &&& (k == TypeDefKind::Named) == (shape is Named && (shape->Named_0 > 0 || has_tag))
            &&& (k == TypeDefKind::EmptyObject) == (shape == FieldsShape::Named(0) && !has_tag)
            &&& (k == TypeDefKind::Newtype) == (shape == FieldsShape::Unnamed(1))
            &&& (k == TypeDefKind::Tuple) == (shape is Unnamed && shape->Unnamed_0 >= 2)
            &&& (k == TypeDefKind::EmptyArray) == (shape == FieldsShape::Unnamed(0))
            &&& (k == TypeDefKind::Null) == (shape == FieldsShape::Unit)
        }),
{
}

} // verus!
