//! Structs with one unnamed field.
use vstd::prelude::*;

use crate::attr::field::FieldAttr;

verus! {

/// What a newtype struct becomes.
#[derive(Clone, Copy, Debug, PartialEq, Eq, Structural)]
pub enum NewtypeForm {
    /// The field is skipped: `null`.
    Null,
    /// The field's `type = "..."` text.
    Override,
    /// The field's type, inlined.
    Inline,
    /// The field's type, by name.
    Name,
}

/// Which form a newtype's inner type takes: nothing when skipped, the override where one is given, inlined or by reference otherwise.
pub open spec fn newtype_form_spec(skip: bool, has_override: bool, inline: bool) -> NewtypeForm {
    if skip {
        NewtypeForm::Null
    } else if has_override {
        NewtypeForm::Override
    } else if inline {
        NewtypeForm::Inline
    } else {
        NewtypeForm::Name
    }
}

/// Decides what a newtype struct with this field becomes.
pub fn newtype_form(field: &FieldAttr) -> (r: NewtypeForm)
    ensures
        r == newtype_form_spec(field.skip, field.type_override is Some, field.inline),
{
    if field.skip {
        NewtypeForm::Null
    } else if field.type_override.is_some() {
        NewtypeForm::Override
    } else if field.inline {
        NewtypeForm::Inline
    } else {
        NewtypeForm::Name
    }
}

/// A newtype is `null` when its field is skipped; otherwise its field's
/// `type = ".."` text wins, then `inline`, then the field type's name.
pub proof fn lemma_newtype_forms(skip: bool, has_override: bool, inline: bool)
    ensures
        (newtype_form_spec(skip, has_override, inline) == NewtypeForm::Null) == skip,
        (newtype_form_spec(skip, has_override, inline) == NewtypeForm::Override) == (!skip && has_override),
        (newtype_form_spec(skip, has_override, inline) == NewtypeForm::Inline) == (!skip && !has_override && inline),
        (newtype_form_spec(skip, has_override, inline) == NewtypeForm::Name) == (!skip && !has_override && !inline),
{
}

} // verus!
