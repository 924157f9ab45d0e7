//! `#[ts(optional)]` on fields and `#[ts(optional_fields)]` on structs.
use vstd::prelude::*;

use crate::text::str_equal;

verus! {

/// Indicates whether the field is marked with `#[ts(optional)]`.
/// `#[ts(optional)]` turns an `t: Option<T>` into `t?: T`, while
/// `#[ts(optional = nullable)]` turns it into `t?: T | null`.
#[derive(Clone, Copy, Debug, PartialEq, Eq, Structural)]
pub enum Optional {
    /// Explicitly marked as optional with `#[ts(optional)]`
    Optional { nullable: bool },
    /// Explicitly marked as not optional with `#[ts(optional = false)]`
    NotOptional,
    Inherit,
}

impl Default for Optional {
    fn default() -> (r: Self)
        ensures
            r == Optional::Inherit,
    {
        Optional::Inherit
    }
}

/// Combining two markings: `Inherit` gives way to the other one, two
/// `Optional`s are nullable when either is, and otherwise `other` wins.
pub open spec fn optional_or(a: Optional, b: Optional) -> Optional {
    match (a, b) {
        (Optional::Inherit, other) => other,
        (other, Optional::Inherit) => other,
        (Optional::Optional { nullable: x }, Optional::Optional { nullable: y }) => {
            Optional::Optional { nullable: x || y }
        },
        _ => b,
    }
}

impl Optional {
    /// The marking that a field takes from itself and its struct: see `optional_or`.
    pub fn or(self, other: Optional) -> (r: Self)
        ensures
            r == optional_or(self, other),
    {
        match (self, other) {
            (Self::Inherit, other) | (other, Self::Inherit) => other,
            (Self::Optional { nullable: a }, Self::Optional { nullable: b }) => {
                Self::Optional { nullable: a || b }
            },
            _ => other,
        }
    }
}

/// `#[ts(optional)]` is not followed by `= nullable` or `= false`.
#[derive(Clone, Copy, Debug, PartialEq, Eq, Structural)]
pub struct ExpectedNullable;

impl ExpectedNullable {
    /// The text that reports this error.
    pub fn message(&self) -> (r: &'static str)
        ensures
            r@ == "expected 'nullable'"@,
    {
        "expected 'nullable'"
    }
}

/// The marking written as `optional` (`value` is `None`) or as
/// `optional = <value>`.
pub open spec fn optional_from(value: Option<Seq<char>>) -> Option<Optional> {
    match value {
        None => Some(Optional::Optional { nullable: false }),
        Some(v) => if v == "nullable"@ {
            Some(Optional::Optional { nullable: true })
        } else if v == "false"@ {
            Some(Optional::NotOptional)
        } else {
            None
        },
    }
}

/// Reads the marking from the identifier after `optional =`, if there is one.
pub fn parse_optional(value: Option<&str>) -> (r: Result<Optional, ExpectedNullable>)
    ensures
        match r {
            Ok(o) => optional_from(
                match value {
                    Some(v) => Some(v@),
                    None => None,
                },
            ) == Some(o),
            Err(_) => optional_from(
                match value {
                    Some(v) => Some(v@),
                    None => None,
                },
            ) is None,
        },
{
    match value {
        None => Ok(Optional::Optional { nullable: false }),
        Some(v) => {
            if str_equal(v, "nullable") {
                Ok(Optional::Optional { nullable: true })
            } else if str_equal(v, "false") {
                Ok(Optional::NotOptional)
            } else {
                Err(ExpectedNullable)
            }
        },
    }
}

/// Whether a field is written with `?`.
#[derive(Clone, Copy, Debug, PartialEq, Eq, Structural)]
pub enum OptionalAnnotation {
    /// Decided now: `?` exactly when the flag is set.
    Fixed(bool),
    /// `?`, and the generated code checks that the field's type is an `Option`.
    CheckedOption,
    /// `?` exactly when the field's type is an `Option` (`TS::IS_OPTION`).
    IfOption,
}

/// The type a field is written with.
#[derive(Clone, Copy, Debug, PartialEq, Eq, Structural)]
pub enum FieldType {
    /// The field's own type.
    AsIs,
    /// `T` for a field of type `Option<T>` (`TS::OptionInnerType`).
    OptionInner,
}

/// How a field is written, given the marking of its struct, its own marking,
/// whether its type is overridden with `#[ts(type = ..)]`, and whether it may
/// be omitted and has a default.
pub open spec fn optional_decision(
    for_struct: Optional,
    for_field: Optional,
    has_type_override: bool,
    maybe_omitted: bool,
    has_default: bool,
) -> (OptionalAnnotation, FieldType) {
    match (for_struct, for_field) {
        (_, Optional::NotOptional) => (OptionalAnnotation::Fixed(false), FieldType::AsIs),
        (Optional::NotOptional, Optional::Inherit) => (
            OptionalAnnotation::Fixed(false),
            FieldType::AsIs,
        ),
        (_, Optional::Optional { nullable }) => (
            OptionalAnnotation::CheckedOption,
            if nullable {
                FieldType::AsIs
            } else {
                FieldType::OptionInner
            },
        ),
        (Optional::Optional { nullable }, Optional::Inherit) => if !has_type_override {
            (
                OptionalAnnotation::IfOption,
                if nullable {
                    FieldType::AsIs
                } else {
                    FieldType::OptionInner
                },
            )
        } else {
            (OptionalAnnotation::Fixed(maybe_omitted && has_default), FieldType::AsIs)
        },
        _ => (OptionalAnnotation::Fixed(maybe_omitted && has_default), FieldType::AsIs),
    }
}

/// Decides whether a field is annotated with `?` and which type it is written with:
/// an explicit marking on the field wins and is checked at compile time; a
/// marking inherited from the struct applies when the type is not overridden;
/// without any, a field that may be omitted and has a default is optional.
pub fn apply(
    for_struct: Optional,
    for_field: Optional,
    has_type_override: bool,
    maybe_omitted: bool,
    has_default: bool,
) -> (r: (OptionalAnnotation, FieldType))
    ensures
        r == optional_decision(
            for_struct,
            for_field,
            has_type_override,
            maybe_omitted,
            has_default,
        ),
{
    match (for_struct, for_field) {
        (Optional::NotOptional, Optional::Inherit) | (_, Optional::NotOptional) => {
            (OptionalAnnotation::Fixed(false), FieldType::AsIs)
        },
        (_, Optional::Optional { nullable }) => (
            OptionalAnnotation::CheckedOption,
            if nullable {
                FieldType::AsIs
            } else {
                FieldType::OptionInner
            },
        ),
        (Optional::Optional { nullable }, Optional::Inherit) if !has_type_override => (
            OptionalAnnotation::IfOption,
            if nullable {
                FieldType::AsIs
            } else {
                FieldType::OptionInner
            },
        ),
        _ => (OptionalAnnotation::Fixed(maybe_omitted && has_default), FieldType::AsIs),
    }
}

/// `Inherit` leaves the other marking unchanged, on either side.
pub proof fn lemma_or_inherit_identity(o: Optional)
    ensures
        optional_or(Optional::Inherit, o) == o,
        optional_or(o, Optional::Inherit) == o,
{
}

/// Combining a marking with itself gives it back.
/// Combining markings can be grouped either way, except for `nullable`,
/// then `false`, then a plain `optional`: grouped to the left the `false`
/// drops the first marking, grouped to the right the first marking and the
/// last one are joined.
pub proof fn lemma_or_associative(a: Optional, b: Optional, c: Optional)
    requires
        !(a == Optional::Optional { nullable: true } && b == Optional::NotOptional && c
            == Optional::Optional { nullable: false }),
    ensures
        optional_or(optional_or(a, b), c) == optional_or(a, optional_or(b, c)),
{
}

/// Combining a marking with itself gives it back.
pub proof fn lemma_or_idempotent(o: Optional)
    ensures
        optional_or(o, o) == o,
{
}

/// Two `Optional` markings combine to the same result in either order.
pub proof fn lemma_or_optional_commutes(a: bool, b: bool)
    ensures
        optional_or(Optional::Optional { nullable: a }, Optional::Optional { nullable: b })
            == optional_or(Optional::Optional { nullable: b }, Optional::Optional { nullable: a }),
{
}

/// An explicit marking on a field decides it, whatever the struct says.
pub proof fn lemma_field_marking_wins(
    for_struct: Optional,
    nullable: bool,
    has_type_override: bool,
    maybe_omitted: bool,
    has_default: bool,
)
    ensures
        optional_decision(
            for_struct,
            Optional::Optional { nullable },
            has_type_override,
            maybe_omitted,
            has_default,
        ).0 == OptionalAnnotation::CheckedOption,
        optional_decision(
            for_struct,
            Optional::Optional { nullable },
            has_type_override,
            maybe_omitted,
            has_default,
        ).1 == (if nullable {
            FieldType::AsIs
        } else {
            FieldType::OptionInner
        }),
        optional_decision(
            for_struct,
            Optional::NotOptional,
            has_type_override,
            maybe_omitted,
            has_default,
        ) == (OptionalAnnotation::Fixed(false), FieldType::AsIs),
{
}

/// A field that may be left out when serializing is optional only together
/// with a default: without `default` it is never made optional on that
/// account, and with both (and no marking anywhere) it is.
pub proof fn lemma_omitted_needs_default(
    for_struct: Optional,
    for_field: Optional,
    has_type_override: bool,
    maybe_omitted: bool,
    has_default: bool,
)
    ensures
        !has_default ==> optional_decision(
            for_struct,
            for_field,
            has_type_override,
            maybe_omitted,
            has_default,
        ).0 != OptionalAnnotation::Fixed(true),
        optional_decision(Optional::Inherit, Optional::Inherit, has_type_override, true, true).0
            == OptionalAnnotation::Fixed(true),
{
}

} // verus!
