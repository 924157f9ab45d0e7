//! Options of an enum variant.
use vstd::prelude::*;

use super::{merge_option, option_or, Attr};
use crate::inflection::Inflection;

verus! {

/// The options of an enum variant, from `#[ts(..)]` and `#[serde(..)]`.
pub struct VariantAttr {
    pub type_as: Option<syn::Type>,
    pub type_override: Option<String>,
    pub rename: Option<syn::Expr>,
    pub rename_all: Option<Inflection>,
    pub inline: bool,
    pub skip: bool,
    pub untagged: bool,
}

/// A combination of variant options that is refused.
#[derive(Copy, Clone, Debug, PartialEq, Eq, Structural)]
pub enum VariantAttrError {
    AsWithType,
    AsWithRenameAll,
    TypeWithRenameAll,
    TypeWithInline,
    RenameAllOnUnnamed,
}

impl VariantAttrError {
    /// The text that reports this error.
    pub open spec fn spec_message(self) -> Seq<char> {
        match self {
            VariantAttrError::AsWithType => "`as` is not compatible with `type`"@,
            VariantAttrError::AsWithRenameAll => "`as` is not compatible with `rename_all`"@,
            VariantAttrError::TypeWithRenameAll => "`type` is not compatible with `rename_all`"@,
            VariantAttrError::TypeWithInline => "`type` is not compatible with `inline`"@,
            VariantAttrError::RenameAllOnUnnamed => "`rename_all` is not applicable to unit or tuple variants"@,
        }
    }

    /// The text of the error reported to the user.
    pub fn message(&self) -> (r: &'static str)
        ensures
            r@ == self.spec_message(),
    {
        match self {
            VariantAttrError::AsWithType => "`as` is not compatible with `type`",
            VariantAttrError::AsWithRenameAll => "`as` is not compatible with `rename_all`",
            VariantAttrError::TypeWithRenameAll => "`type` is not compatible with `rename_all`",
            VariantAttrError::TypeWithInline => "`type` is not compatible with `inline`",
            VariantAttrError::RenameAllOnUnnamed => "`rename_all` is not applicable to unit or tuple variants",
        }
    }
}

impl VariantAttr {
    /// All options unset.
    pub fn new() -> (r: Self)
        ensures
            r.type_as is None,
            r.type_override is None,
            r.rename is None,
            r.rename_all is None,
            !r.inline,
            !r.skip,
            !r.untagged,
    {
        VariantAttr {
            type_as: None,
            type_override: None,
            rename: None,
            rename_all: None,
            inline: false,
            skip: false,
            untagged: false,
        }
    }

    /// The first refused combination of options, in the order they are
    /// checked; `named_fields` tells whether the variant has named fields.
    pub open spec fn validity(&self, named_fields: bool) -> Option<VariantAttrError> {
        if self.type_as is Some && self.type_override is Some {
            Some(VariantAttrError::AsWithType)
        } else if self.type_as is Some && self.rename_all is Some {
            Some(VariantAttrError::AsWithRenameAll)
        } else if self.type_override is Some && self.rename_all is Some {
            Some(VariantAttrError::TypeWithRenameAll)
        } else if self.type_override is Some && self.inline {
            Some(VariantAttrError::TypeWithInline)
        } else if !named_fields && self.rename_all is Some {
            Some(VariantAttrError::RenameAllOnUnnamed)
        } else {
            None
        }
    }

    /// Refuses options that cannot be used together, or not on this kind of variant.
    pub fn assert_validity(&self, named_fields: bool) -> (r: Result<(), VariantAttrError>)
        ensures
            match r {
                Ok(()) => self.validity(named_fields) is None,
                Err(e) => self.validity(named_fields) == Some(e),
            },
    {
        if self.type_as.is_some() {
            if self.type_override.is_some() {
                return Err(VariantAttrError::AsWithType);
            }
            if self.rename_all.is_some() {
                return Err(VariantAttrError::AsWithRenameAll);
            }
        }
        if self.type_override.is_some() {
            if self.rename_all.is_some() {
                return Err(VariantAttrError::TypeWithRenameAll);
            }
            if self.inline {
                return Err(VariantAttrError::TypeWithInline);
            }
        }
        if !named_fields && self.rename_all.is_some() {
            return Err(VariantAttrError::RenameAllOnUnnamed);
        }
        Ok(())
    }
}

impl Attr for VariantAttr {
    /// Options set in `a` are kept, the others are taken from `b`; flags are
    /// set when either sets them.
    open spec fn merged(a: Self, b: Self, r: Self) -> bool {
        &&& r.type_as == option_or(a.type_as, b.type_as)
        &&& r.type_override == option_or(a.type_override, b.type_override)
        &&& r.rename == option_or(a.rename, b.rename)
        &&& r.rename_all == option_or(a.rename_all, b.rename_all)
        &&& r.inline == (a.inline || b.inline)
        &&& r.skip == (a.skip || b.skip)
        &&& r.untagged == (a.untagged || b.untagged)
    }

    fn merge(self, other: Self) -> (r: Self) {
        VariantAttr {
            type_as: merge_option(self.type_as, other.type_as),
            type_override: merge_option(self.type_override, other.type_override),
            rename: merge_option(self.rename, other.rename),
            rename_all: merge_option(self.rename_all, other.rename_all),
            inline: self.inline || other.inline,
            skip: self.skip || other.skip,
            untagged: self.untagged || other.untagged,
        }
    }
}

/// Whether two variant option sets hold the same options.
pub open spec fn same_variant_options(x: VariantAttr, y: VariantAttr) -> bool {
    &&& x.type_as == y.type_as
    &&& x.type_override == y.type_override
    &&& x.rename == y.rename
    &&& x.rename_all == y.rename_all
    &&& x.inline == y.inline
    &&& x.skip == y.skip
    &&& x.untagged == y.untagged
}

/// Whether no option is set.
pub open spec fn variant_unset(x: VariantAttr) -> bool {
    &&& x.type_as is None
    &&& x.type_override is None
    &&& x.rename is None
    &&& x.rename_all is None
    &&& !x.inline
    &&& !x.skip
    &&& !x.untagged
}

/// Repeated attributes can be combined in any grouping.
pub proof fn lemma_variant_merge_associative(
    a: VariantAttr,
    b: VariantAttr,
    c: VariantAttr,
    ab: VariantAttr,
    bc: VariantAttr,
    left: VariantAttr,
    right: VariantAttr,
)
    requires
        VariantAttr::merged(a, b, ab),
        VariantAttr::merged(ab, c, left),
        VariantAttr::merged(b, c, bc),
        VariantAttr::merged(a, bc, right),
    ensures
        same_variant_options(left, right),
{
}

/// Merging into the unset options gives the other options.
pub proof fn lemma_variant_merge_unset(u: VariantAttr, a: VariantAttr, r: VariantAttr)
    requires
        variant_unset(u),
        VariantAttr::merged(u, a, r),
    ensures
        same_variant_options(r, a),
{
}

/// Whether the options that error `e` names are set together on `a` (on a
/// variant without named fields when `named_fields` is false).
pub open spec fn variant_conflict(a: VariantAttr, named_fields: bool, e: VariantAttrError) -> bool {
    match e {
        VariantAttrError::AsWithType => a.type_as is Some && a.type_override is Some,
        VariantAttrError::AsWithRenameAll => a.type_as is Some && a.rename_all is Some,
        VariantAttrError::TypeWithRenameAll => a.type_override is Some && a.rename_all is Some,
        VariantAttrError::TypeWithInline => a.type_override is Some && a.inline,
        VariantAttrError::RenameAllOnUnnamed => !named_fields && a.rename_all is Some,
    }
}

/// A variant's options are accepted exactly when no two of them conflict
/// (and `rename_all` only with named fields); a refusal names a conflict
/// that is really there.
pub proof fn lemma_variant_refusals_are_conflicts(a: VariantAttr, named_fields: bool)
    ensures
        a.validity(named_fields) is None <==> forall|e: VariantAttrError| !#[trigger] variant_conflict(a, named_fields, e),
        a.validity(named_fields) matches Some(e) ==> variant_conflict(a, named_fields, e),
{
    if a.validity(named_fields) is None {
        assert forall|e: VariantAttrError| !#[trigger] variant_conflict(a, named_fields, e) by {
            match e {
                _ => {},
            }
        }
    } else {
        let e = a.validity(named_fields)->Some_0;
        assert(variant_conflict(a, named_fields, e));
    }
}

} // verus!
