//! Options of a struct, or of an enum variant read as a struct.
use vstd::prelude::*;

use super::enum_attr::{tagging, EnumAttr, EnumAttrError, Tagged, TaggingKind};
use super::variant::VariantAttr;
use super::{bound_or, bound_view, merge_bound, merge_option, option_or, Attr};
use crate::inflection::Inflection;
use crate::optional::{optional_or, Optional};
use crate::syntax::clone_expr;
use crate::text::{opt_view, string_from};

verus! {

/// The options of a struct, from `#[ts(..)]` and `#[serde(..)]`.
pub struct StructAttr {
    /// The path given with `#[ts(crate = "..")]`, if any.
    pub crate_rename: Option<syn::Path>,
    pub type_as: Option<syn::Type>,
    pub type_override: Option<String>,
    pub rename_all: Option<Inflection>,
    pub rename: Option<syn::Expr>,
    pub export_to: Option<syn::Expr>,
    pub export: bool,
    pub tag: Option<String>,
    pub docs: Vec<syn::Expr>,
    /// Concrete types for type parameters, in the order given; a later entry
    /// for the same parameter takes precedence.
    pub concrete: Vec<(proc_macro2::Ident, syn::Type)>,
    pub bound: Option<Vec<syn::WherePredicate>>,
    pub optional_fields: Optional,
}

/// A combination of struct options that is refused.
#[derive(Copy, Clone, Debug, PartialEq, Eq, Structural)]
pub enum StructAttrError {
    AsWithType,
    RenameAllWithType,
    TagWithType,
    OptionalFieldsWithType,
    TagWithAs,
    RenameAllWithAs,
    OptionalFieldsWithAs,
    TagOnUnnamed,
    RenameAllOnUnnamed,
}

impl StructAttrError {
    /// The text that reports this error.
    pub open spec fn spec_message(self) -> Seq<char> {
        match self {
            StructAttrError::AsWithType => "`as` is not compatible with `type`"@,
            StructAttrError::RenameAllWithType => "`rename_all` is not compatible with `type`"@,
            StructAttrError::TagWithType => "`tag` is not compatible with `type`"@,
            StructAttrError::OptionalFieldsWithType => "`optional_fields` is not compatible with `type`"@,
            StructAttrError::TagWithAs => "`tag` is not compatible with `as`"@,
            StructAttrError::RenameAllWithAs => "`rename_all` is not compatible with `as`"@,
            StructAttrError::OptionalFieldsWithAs => "`optional_fields` is not compatible with `as`"@,
            StructAttrError::TagOnUnnamed => "`tag` cannot be used with unit or tuple structs"@,
            StructAttrError::RenameAllOnUnnamed => "`rename_all` cannot be used with unit or tuple structs"@,
        }
    }

    /// The text of the error reported to the user.
    pub fn message(&self) -> (r: &'static str)
        ensures
            r@ == self.spec_message(),
    {
        match self {
            StructAttrError::AsWithType => "`as` is not compatible with `type`",
            StructAttrError::RenameAllWithType => "`rename_all` is not compatible with `type`",
            StructAttrError::TagWithType => "`tag` is not compatible with `type`",
            StructAttrError::OptionalFieldsWithType => "`optional_fields` is not compatible with `type`",
            StructAttrError::TagWithAs => "`tag` is not compatible with `as`",
            StructAttrError::RenameAllWithAs => "`rename_all` is not compatible with `as`",
            StructAttrError::OptionalFieldsWithAs => "`optional_fields` is not compatible with `as`",
            StructAttrError::TagOnUnnamed => "`tag` cannot be used with unit or tuple structs",
            StructAttrError::RenameAllOnUnnamed => "`rename_all` cannot be used with unit or tuple structs",
        }
    }
}

impl StructAttr {
    /// All options unset.
    pub fn new() -> (r: Self)
        ensures
            r.crate_rename is None,
            r.type_as is None,
            r.type_override is None,
            r.rename_all is None,
            r.rename is None,
            r.export_to is None,
            !r.export,
            r.tag is None,
            r.docs@.len() == 0,
            r.concrete@.len() == 0,
            r.bound is None,
            r.optional_fields == Optional::Inherit,
    {
        StructAttr {
            crate_rename: None,
            type_as: None,
            type_override: None,
            rename_all: None,
            rename: None,
            export_to: None,
            export: false,
            tag: None,
            docs: Vec::new(),
            concrete: Vec::new(),
            bound: None,
            optional_fields: Optional::Inherit,
        }
    }

    /// The options of an enum variant, read as a struct: the crate path
    /// `crate_rename` of the enum, the variant's `rename`, its `rename_all`
    /// or else (for named fields) the enum's `rename_all_fields`, and for
    /// named fields of an internally tagged enum its tag.
    pub fn from_variant(
        enum_attr: &EnumAttr,
        variant_attr: &VariantAttr,
        named_fields: bool,
        crate_rename: syn::Path,
    ) -> (r: Self)
        requires
            tagging(enum_attr.untagged, enum_attr.tag, enum_attr.content) is Ok,
        ensures
            r.crate_rename == Some(crate_rename),
            r.rename == variant_attr.rename,
            r.rename_all == option_or(
                variant_attr.rename_all,
                if named_fields {
                    enum_attr.rename_all_fields
                } else {
                    None
                },
            ),
            opt_view(r.tag) == (if named_fields && tagging(
                enum_attr.untagged,
                enum_attr.tag,
                enum_attr.content,
            ) == Ok::<TaggingKind, EnumAttrError>(TaggingKind::Internally) {
                opt_view(enum_attr.tag)
            } else {
                None
            }),
            r.type_as is None,
            r.type_override is None,
            r.export_to is None,
            !r.export,
            r.docs@.len() == 0,
            r.concrete@.len() == 0,
            r.bound is None,
            r.optional_fields == Optional::Inherit,
    {
        let rename = match &variant_attr.rename {
            Some(e) => Some(clone_expr(e)),
            None => None,
        };
        let rename_all = merge_option(
            variant_attr.rename_all,
            if named_fields {
                enum_attr.rename_all_fields
            } else {
                None
            },
        );
        let tag = if named_fields {
            match enum_attr.tagged() {
                Ok(Tagged::Internally { tag }) => Some(string_from(tag)),
                _ => None,
            }
        } else {
            None
        };
        let mut r = StructAttr::new();
        r.crate_rename = Some(crate_rename);
        r.rename = rename;
        r.rename_all = rename_all;
        r.tag = tag;
        r
    }

    /// The first refused combination of options, in the order they are
    /// checked; `named_fields` tells whether the struct has named fields.
    pub open spec fn validity(&self, named_fields: bool) -> Option<StructAttrError> {
        if self.type_override is Some && self.type_as is Some {
            Some(StructAttrError::AsWithType)
        } else if self.type_override is Some && self.rename_all is Some {
            Some(StructAttrError::RenameAllWithType)
        } else if self.type_override is Some && self.tag is Some {
            Some(StructAttrError::TagWithType)
        } else if self.type_override is Some && self.optional_fields is Optional {
            Some(StructAttrError::OptionalFieldsWithType)
        } else if self.type_as is Some && self.tag is Some {
            Some(StructAttrError::TagWithAs)
        } else if self.type_as is Some && self.rename_all is Some {
            Some(StructAttrError::RenameAllWithAs)
        } else if self.type_as is Some && self.optional_fields is Optional {
            Some(StructAttrError::OptionalFieldsWithAs)
        } else if !named_fields && self.tag is Some {
            Some(StructAttrError::TagOnUnnamed)
        } else if !named_fields && self.rename_all is Some {
            Some(StructAttrError::RenameAllOnUnnamed)
        } else {
            None
        }
    }

    /// Refuses options that cannot be used together, or not on this kind of struct.
    pub fn assert_validity(&self, named_fields: bool) -> (r: Result<(), StructAttrError>)
        ensures
            match r {
                Ok(()) => self.validity(named_fields) is None,
                Err(e) => self.validity(named_fields) == Some(e),
            },
    {
        if self.type_override.is_some() {
            if self.type_as.is_some() {
                return Err(StructAttrError::AsWithType);
            }
            if self.rename_all.is_some() {
                return Err(StructAttrError::RenameAllWithType);
            }
            if self.tag.is_some() {
                return Err(StructAttrError::TagWithType);
            }
            if let Optional::Optional { .. } = self.optional_fields {
                return Err(StructAttrError::OptionalFieldsWithType);
            }
        }
        if self.type_as.is_some() {
            if self.tag.is_some() {
                return Err(StructAttrError::TagWithAs);
            }
            if self.rename_all.is_some() {
                return Err(StructAttrError::RenameAllWithAs);
            }
            if let Optional::Optional { .. } = self.optional_fields {
                return Err(StructAttrError::OptionalFieldsWithAs);
            }
        }
        if !named_fields {
            if self.tag.is_some() {
                return Err(StructAttrError::TagOnUnnamed);
            }
            if self.rename_all.is_some() {
                return Err(StructAttrError::RenameAllOnUnnamed);
            }
        }
        Ok(())
    }
}

impl Attr for StructAttr {
    /// Options set in `a` are kept, the others are taken from `b`; `export`
    /// is set when either sets it; docs are those of `b`; concrete types and
    /// bounds of both are kept, those of `a` first (a parameter fixed by both
    /// is then looked up in `b`'s entries: see `concrete_position`).
    open spec fn merged(a: Self, b: Self, r: Self) -> bool {
        &&& r.crate_rename == option_or(a.crate_rename, b.crate_rename)
        &&& r.type_as == option_or(a.type_as, b.type_as)
        &&& r.type_override == option_or(a.type_override, b.type_override)
        &&& r.rename == option_or(a.rename, b.rename)
        &&& r.rename_all == option_or(a.rename_all, b.rename_all)
        &&& r.export_to == option_or(a.export_to, b.export_to)
        &&& r.export == (a.export || b.export)
        &&& r.tag == option_or(a.tag, b.tag)
        &&& r.docs == b.docs
        &&& r.concrete@ == a.concrete@ + b.concrete@
        &&& bound_view(r.bound) == bound_or(a.bound, b.bound)
        &&& r.optional_fields == optional_or(a.optional_fields, b.optional_fields)
    }

    fn merge(self, other: Self) -> (r: Self) {
        let mut concrete = self.concrete;
        let mut other_concrete = other.concrete;
        concrete.append(&mut other_concrete);
        StructAttr {
            crate_rename: merge_option(self.crate_rename, other.crate_rename),
            type_as: merge_option(self.type_as, other.type_as),
            type_override: merge_option(self.type_override, other.type_override),
            rename: merge_option(self.rename, other.rename),
            rename_all: merge_option(self.rename_all, other.rename_all),
            export_to: merge_option(self.export_to, other.export_to),
            export: self.export || other.export,
            tag: merge_option(self.tag, other.tag),
            docs: other.docs,
            concrete,
            bound: merge_bound(self.bound, other.bound),
            optional_fields: self.optional_fields.or(other.optional_fields),
        }
    }
}

/// Whether two struct option sets hold the same options.
pub open spec fn same_struct_options(x: StructAttr, y: StructAttr) -> bool {
    &&& x.crate_rename == y.crate_rename
    &&& x.type_as == y.type_as
    &&& x.type_override == y.type_override
    &&& x.rename_all == y.rename_all
    &&& x.rename == y.rename
    &&& x.export_to == y.export_to
    &&& x.export == y.export
    &&& x.tag == y.tag
    &&& x.docs@ == y.docs@
    &&& x.concrete@ == y.concrete@
    &&& bound_view(x.bound) == bound_view(y.bound)
    &&& x.optional_fields == y.optional_fields
}

/// Whether no option is set.
pub open spec fn struct_unset(x: StructAttr) -> bool {
    &&& x.crate_rename is None
    &&& x.type_as is None
    &&& x.type_override is None
    &&& x.rename_all is None
    &&& x.rename is None
    &&& x.export_to is None
    &&& !x.export
    &&& x.tag is None
    &&& x.docs@.len() == 0
    &&& x.concrete@.len() == 0
    &&& x.bound is None
    &&& x.optional_fields == Optional::Inherit
}

/// Repeated attributes can be combined in any grouping (but for the one
/// combination of `optional_fields` markings that `or` does not group freely).
pub proof fn lemma_struct_merge_associative(
    a: StructAttr,
    b: StructAttr,
    c: StructAttr,
    ab: StructAttr,
    bc: StructAttr,
    left: StructAttr,
    right: StructAttr,
)
    requires
        StructAttr::merged(a, b, ab),
        StructAttr::merged(ab, c, left),
        StructAttr::merged(b, c, bc),
        StructAttr::merged(a, bc, right),
        !(a.optional_fields == Optional::Optional { nullable: true } && b.optional_fields
            == Optional::NotOptional && c.optional_fields == Optional::Optional { nullable: false }),
    ensures
        same_struct_options(left, right),
{
    assert(left.concrete@ =~= right.concrete@);
    assert(bound_view(left.bound) =~= bound_view(right.bound)) by {
        if a.bound is Some && b.bound is Some && c.bound is Some {
            assert(a.bound->0@ + b.bound->0@ + c.bound->0@ =~= a.bound->0@ + (b.bound->0@ + c.bound->0@));
        }
    }
    crate::optional::lemma_or_associative(a.optional_fields, b.optional_fields, c.optional_fields);
}

/// Merging into the unset options gives the other options.
pub proof fn lemma_struct_merge_unset(u: StructAttr, a: StructAttr, r: StructAttr)
    requires
        struct_unset(u),
        StructAttr::merged(u, a, r),
    ensures
        same_struct_options(r, a),
{
    assert(r.concrete@ =~= a.concrete@);
}

/// Whether the options that error `e` names are set together on `a` (on a
/// struct without named fields when `named_fields` is false).
pub open spec fn struct_conflict(a: StructAttr, named_fields: bool, e: StructAttrError) -> bool {
    match e {
        StructAttrError::AsWithType => a.type_override is Some && a.type_as is Some,
        StructAttrError::RenameAllWithType => a.type_override is Some && a.rename_all is Some,
        StructAttrError::TagWithType => a.type_override is Some && a.tag is Some,
        StructAttrError::OptionalFieldsWithType => a.type_override is Some && a.optional_fields is Optional,
        StructAttrError::TagWithAs => a.type_as is Some && a.tag is Some,
        StructAttrError::RenameAllWithAs => a.type_as is Some && a.rename_all is Some,
        StructAttrError::OptionalFieldsWithAs => a.type_as is Some && a.optional_fields is Optional,
        StructAttrError::TagOnUnnamed => !named_fields && a.tag is Some,
        StructAttrError::RenameAllOnUnnamed => !named_fields && a.rename_all is Some,
    }
}

/// A struct's options are accepted exactly when no two of them conflict (and
/// none is out of place without named fields); a refusal names a conflict
/// that is really there.
pub proof fn lemma_struct_refusals_are_conflicts(a: StructAttr, named_fields: bool)
    ensures
        a.validity(named_fields) is None <==> forall|e: StructAttrError| !#[trigger] struct_conflict(a, named_fields, e),
        a.validity(named_fields) matches Some(e) ==> struct_conflict(a, named_fields, e),
{
    if a.validity(named_fields) is None {
        assert forall|e: StructAttrError| !#[trigger] struct_conflict(a, named_fields, e) by {
            match e {
                _ => {},
            }
        }
    } else {
        let e = a.validity(named_fields)->Some_0;
        assert(struct_conflict(a, named_fields, e));
    }
}

} // verus!
