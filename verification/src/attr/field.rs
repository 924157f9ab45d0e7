//! Options of a struct field.
use vstd::prelude::*;

use super::{merge_option, option_or, Attr};
use crate::text::push_str;

verus! {

/// The options of a field, from `#[ts(..)]` and `#[serde(..)]`.
pub struct FieldAttr {
    /// The type given with `#[ts(as = "..")]`, if any.
    pub type_as: Option<syn::Type>,
    pub type_override: Option<String>,
    pub rename: Option<String>,
    pub inline: bool,
    pub skip: bool,
    pub optional: Optional,
    pub flatten: bool,
    pub docs: String,
    pub using_serde_with: bool,
}

/// Indicates whether the field is marked with `#[ts(optional)]`.
/// `#[ts(optional)]` turns an `t: Option<T>` into `t?: T`, while
/// `#[ts(optional = nullable)]` turns it into `t?: T | null`.
#[derive(Copy, Clone, Debug, PartialEq, Eq, Structural)]
pub struct Optional {
    pub optional: bool,
    pub nullable: bool,
}

impl Default for Optional {
    fn default() -> (r: Self)
        ensures
            !r.optional,
            !r.nullable,
    {
        Optional { optional: false, nullable: false }
    }
}

/// A combination of field options that is refused.
#[derive(Copy, Clone, Debug, PartialEq, Eq, Structural)]
pub enum FieldAttrError {
    SerdeWithNeedsType,
    TypeWithAs,
    TypeWithInline,
    TypeWithFlatten,
    AsWithFlatten,
    RenameWithFlatten,
    InlineWithFlatten,
    OptionalWithFlatten,
    FlattenOnTupleField,
    RenameOnTupleField,
    OptionalOnTupleField,
}

impl FieldAttrError {
    /// The text that reports this error.
    pub open spec fn spec_message(self) -> Seq<char> {
        match self {
            FieldAttrError::SerdeWithNeedsType => "using `#[serde(with = \"...\")]` requires the use of `#[ts(as = \"...\")]` or `#[ts(type = \"...\")]`"@,
            FieldAttrError::TypeWithAs => "`type` is not compatible with `as`"@,
            FieldAttrError::TypeWithInline => "`type` is not compatible with `inline`"@,
            FieldAttrError::TypeWithFlatten => "`type` is not compatible with `flatten`"@,
            FieldAttrError::AsWithFlatten => "`as` is not compatible with `flatten`"@,
            FieldAttrError::RenameWithFlatten => "`rename` is not compatible with `flatten`"@,
            FieldAttrError::InlineWithFlatten => "`inline` is not compatible with `flatten`"@,
            FieldAttrError::OptionalWithFlatten => "`optional` is not compatible with `flatten`"@,
            FieldAttrError::FlattenOnTupleField => "`flatten` cannot with tuple struct fields"@,
            FieldAttrError::RenameOnTupleField => "`flatten` cannot with tuple struct fields"@,
            FieldAttrError::OptionalOnTupleField => "`optional` cannot with tuple struct fields"@,
        }
    }

    /// The text of the error reported to the user.
    pub fn message(&self) -> (r: &'static str)
        ensures
            r@ == self.spec_message(),
    {
        match self {
            FieldAttrError::SerdeWithNeedsType => "using `#[serde(with = \"...\")]` requires the use of `#[ts(as = \"...\")]` or `#[ts(type = \"...\")]`",
            FieldAttrError::TypeWithAs => "`type` is not compatible with `as`",
            FieldAttrError::TypeWithInline => "`type` is not compatible with `inline`",
            FieldAttrError::TypeWithFlatten => "`type` is not compatible with `flatten`",
            FieldAttrError::AsWithFlatten => "`as` is not compatible with `flatten`",
            FieldAttrError::RenameWithFlatten => "`rename` is not compatible with `flatten`",
            FieldAttrError::InlineWithFlatten => "`inline` is not compatible with `flatten`",
            FieldAttrError::OptionalWithFlatten => "`optional` is not compatible with `flatten`",
            FieldAttrError::FlattenOnTupleField => "`flatten` cannot with tuple struct fields",
            FieldAttrError::RenameOnTupleField => "`flatten` cannot with tuple struct fields",
            FieldAttrError::OptionalOnTupleField => "`optional` cannot with tuple struct fields",
        }
    }
}

impl FieldAttr {
    /// All options unset.
    pub fn new() -> (r: Self)
        ensures
            r.type_as is None,
            r.type_override is None,
            r.rename is None,
            !r.inline,
            !r.skip,
            !r.optional.optional,
            !r.optional.nullable,
            !r.flatten,
            r.docs@.len() == 0,
            !r.using_serde_with,
    {
        FieldAttr {
            type_as: None,
            type_override: None,
            rename: None,
            inline: false,
            skip: false,
            optional: Optional { optional: false, nullable: false },
            flatten: false,
            docs: String::new(),
            using_serde_with: false,
        }
    }

    /// The first refused combination of options, in the order they are
    /// checked; `named` tells whether the field has a name (it is not a
    /// tuple field).
    pub open spec fn validity(&self, named: bool) -> Option<FieldAttrError> {
        if self.using_serde_with && !(self.type_as is Some || self.type_override is Some) {
            Some(FieldAttrError::SerdeWithNeedsType)
        } else if self.type_override is Some && self.type_as is Some {
            Some(FieldAttrError::TypeWithAs)
        } else if self.type_override is Some && self.inline {
            Some(FieldAttrError::TypeWithInline)
        } else if self.type_override is Some && self.flatten {
            Some(FieldAttrError::TypeWithFlatten)
        } else if self.flatten && self.type_as is Some {
            Some(FieldAttrError::AsWithFlatten)
        } else if self.flatten && self.rename is Some {
            Some(FieldAttrError::RenameWithFlatten)
        } else if self.flatten && self.inline {
            Some(FieldAttrError::InlineWithFlatten)
        } else if self.flatten && self.optional.optional {
            Some(FieldAttrError::OptionalWithFlatten)
        } else if !named && self.flatten {
            Some(FieldAttrError::FlattenOnTupleField)
        } else if !named && self.rename is Some {
            Some(FieldAttrError::RenameOnTupleField)
        } else if !named && self.optional.optional {
            Some(FieldAttrError::OptionalOnTupleField)
        } else {
            None
        }
    }

    /// Refuses options that cannot be used together, or not on this kind of field.
    pub fn assert_validity(&self, named: bool) -> (r: Result<(), FieldAttrError>)
        ensures
            match r {
                Ok(()) => self.validity(named) is None,
                Err(e) => self.validity(named) == Some(e),
            },
    {
        if self.using_serde_with && !(self.type_as.is_some() || self.type_override.is_some()) {
            return Err(FieldAttrError::SerdeWithNeedsType);
        }
        if self.type_override.is_some() {
            if self.type_as.is_some() {
                return Err(FieldAttrError::TypeWithAs);
            }
            if self.inline {
                return Err(FieldAttrError::TypeWithInline);
            }
            if self.flatten {
                return Err(FieldAttrError::TypeWithFlatten);
            }
        }
        if self.flatten {
            if self.type_as.is_some() {
                return Err(FieldAttrError::AsWithFlatten);
            }
            if self.rename.is_some() {
                return Err(FieldAttrError::RenameWithFlatten);
            }
            if self.inline {
                return Err(FieldAttrError::InlineWithFlatten);
            }
            if self.optional.optional {
                return Err(FieldAttrError::OptionalWithFlatten);
            }
        }
        if !named {
            if self.flatten {
                return Err(FieldAttrError::FlattenOnTupleField);
            }
            if self.rename.is_some() {
                return Err(FieldAttrError::RenameOnTupleField);
            }
            if self.optional.optional {
                return Err(FieldAttrError::OptionalOnTupleField);
            }
        }
        Ok(())
    }
}

impl Attr for FieldAttr {
    /// Options set in `a` are kept, the others are taken from `b`; flags are
    /// set when either sets them; the docs of both are joined, or dropped when
    /// the field is flattened (no doc comment can be written for it).
    open spec fn merged(a: Self, b: Self, r: Self) -> bool {
        &&& r.type_as == option_or(a.type_as, b.type_as)
        &&& r.type_override == option_or(a.type_override, b.type_override)
        &&& r.rename == option_or(a.rename, b.rename)
        &&& r.inline == (a.inline || b.inline)
        &&& r.skip == (a.skip || b.skip)
        &&& r.optional.optional == (a.optional.optional || b.optional.optional)
        &&& r.optional.nullable == (a.optional.nullable || b.optional.nullable)
        &&& r.flatten == (a.flatten || b.flatten)
        &&& r.using_serde_with == (a.using_serde_with || b.using_serde_with)
        &&& r.docs@ == (if a.flatten || b.flatten {
            Seq::empty()
        } else {
            a.docs@ + b.docs@
        })
    }

    fn merge(self, other: Self) -> (r: Self) {
        let flatten = self.flatten || other.flatten;
        let docs = if flatten {
            String::new()
        } else {
            let mut d = self.docs;
            push_str(&mut d, other.docs.as_str());
            d
        };
        FieldAttr {
            type_as: merge_option(self.type_as, other.type_as),
            type_override: merge_option(self.type_override, other.type_override),
            rename: merge_option(self.rename, other.rename),
            inline: self.inline || other.inline,
            skip: self.skip || other.skip,
            optional: Optional {
                optional: self.optional.optional || other.optional.optional,
                nullable: self.optional.nullable || other.optional.nullable,
            },
            flatten,
            using_serde_with: self.using_serde_with || other.using_serde_with,
            docs,
        }
    }
}

/// Whether two field option sets hold the same options.
pub open spec fn same_field_options(x: FieldAttr, y: FieldAttr) -> bool {
    &&& x.type_as == y.type_as
    &&& x.type_override == y.type_override
    &&& x.rename == y.rename
    &&& x.inline == y.inline
    &&& x.skip == y.skip
    &&& x.optional == y.optional
    &&& x.flatten == y.flatten
    &&& x.docs@ == y.docs@
    &&& x.using_serde_with == y.using_serde_with
}

/// Whether no option is set.
pub open spec fn field_unset(x: FieldAttr) -> bool {
    &&& x.type_as is None
    &&& x.type_override is None
    &&& x.rename is None
    &&& !x.inline
    &&& !x.skip
    &&& !x.optional.optional
    &&& !x.optional.nullable
    &&& !x.flatten
    &&& x.docs@.len() == 0
    &&& !x.using_serde_with
}

/// Repeated attributes can be combined in any grouping.
pub proof fn lemma_field_merge_associative(
    a: FieldAttr,
    b: FieldAttr,
    c: FieldAttr,
    ab: FieldAttr,
    bc: FieldAttr,
    left: FieldAttr,
    right: FieldAttr,
)
    requires
        FieldAttr::merged(a, b, ab),
        FieldAttr::merged(ab, c, left),
        FieldAttr::merged(b, c, bc),
        FieldAttr::merged(a, bc, right),
    ensures
        same_field_options(left, right),
{
    if !(a.flatten || b.flatten || c.flatten) {
        assert(left.docs@ =~= right.docs@);
    }
}

/// Merging into the unset options gives the other options.
pub proof fn lemma_field_merge_unset(u: FieldAttr, a: FieldAttr, r: FieldAttr)
    requires
        field_unset(u),
        FieldAttr::merged(u, a, r),
        !a.flatten,
    ensures
        same_field_options(r, a),
{
    assert(r.docs@ =~= a.docs@);
}

/// Whether the options that error `e` names are set together on `a` (on a
/// tuple field when `named` is false).
pub open spec fn field_conflict(a: FieldAttr, named: bool, e: FieldAttrError) -> bool {
    match e {
        FieldAttrError::SerdeWithNeedsType => a.using_serde_with && a.type_as is None && a.type_override is None,
        FieldAttrError::TypeWithAs => a.type_override is Some && a.type_as is Some,
        FieldAttrError::TypeWithInline => a.type_override is Some && a.inline,
        FieldAttrError::TypeWithFlatten => a.type_override is Some && a.flatten,
        FieldAttrError::AsWithFlatten => a.flatten && a.type_as is Some,
        FieldAttrError::RenameWithFlatten => a.flatten && a.rename is Some,
        FieldAttrError::InlineWithFlatten => a.flatten && a.inline,
        FieldAttrError::OptionalWithFlatten => a.flatten && a.optional.optional,
        FieldAttrError::FlattenOnTupleField => !named && a.flatten,
        FieldAttrError::RenameOnTupleField => !named && a.rename is Some,
        FieldAttrError::OptionalOnTupleField => !named && a.optional.optional,
    }
}

/// A field's options are accepted exactly when no two of them conflict (and
/// none is out of place on a tuple field); a refusal names a conflict that is
/// really there.
pub proof fn lemma_field_refusals_are_conflicts(a: FieldAttr, named: bool)
    ensures
        a.validity(named) is None <==> forall|e: FieldAttrError| !#[trigger] field_conflict(a, named, e),
        a.validity(named) matches Some(e) ==> field_conflict(a, named, e),
{
    if a.validity(named) is None {
        assert forall|e: FieldAttrError| !#[trigger] field_conflict(a, named, e) by {
            match e {
                _ => {},
            }
        }
    } else {
        let e = a.validity(named)->Some_0;
        assert(field_conflict(a, named, e));
    }
}

} // verus!
