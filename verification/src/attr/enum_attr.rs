//! Options of an enum.
use vstd::prelude::*;

use super::{bound_or, bound_view, merge_bound, merge_option, option_or, Attr};
use crate::inflection::Inflection;

verus! {

/// The options of an enum, from `#[ts(..)]` and `#[serde(..)]`.
pub struct EnumAttr {
    /// The path given with `#[ts(crate = "..")]`, if any.
    pub crate_rename: Option<syn::Path>,
    pub type_as: Option<syn::Type>,
    pub type_override: Option<String>,
    pub rename_all: Option<Inflection>,
    pub rename_all_fields: Option<Inflection>,
    pub rename: Option<syn::Expr>,
    pub export_to: Option<syn::Expr>,
    pub export: bool,
    pub docs: Vec<syn::Expr>,
    /// Concrete types for type parameters, in the order given; a later entry
    /// for the same parameter takes precedence.
    pub concrete: Vec<(proc_macro2::Ident, syn::Type)>,
    pub bound: Option<Vec<syn::WherePredicate>>,
    pub tag: Option<String>,
    pub untagged: bool,
    pub content: Option<String>,
}

/// How the variants of an enum are tagged.
#[derive(Copy, Clone)]
pub enum Tagged<'a> {
    Externally,
    Adjacently { tag: &'a str, content: &'a str },
    Internally { tag: &'a str },
    Untagged,
}

/// A combination of enum options that is refused.
#[derive(Copy, Clone, Debug, PartialEq, Eq, Structural)]
pub enum EnumAttrError {
    AsWithType,
    RenameAllWithType,
    RenameAllFieldsWithType,
    TagWithType,
    ContentWithType,
    UntaggedWithType,
    RenameAllWithAs,
    RenameAllFieldsWithAs,
    TagWithAs,
    ContentWithAs,
    UntaggedWithAs,
    UntaggedWithTag,
    UntaggedWithContent,
    ContentWithoutTag,
}

impl EnumAttrError {
    /// The text that reports this error.
    pub open spec fn spec_message(self) -> Seq<char> {
        match self {
            EnumAttrError::AsWithType => "`as` is not compatible with `type`"@,
            EnumAttrError::RenameAllWithType => "`rename_all` is not compatible with `type`"@,
            EnumAttrError::RenameAllFieldsWithType => "`rename_all_fields` is not compatible with `type`"@,
            EnumAttrError::TagWithType => "`tag` is not compatible with `type`"@,
            EnumAttrError::ContentWithType => "`content` is not compatible with `type`"@,
            EnumAttrError::UntaggedWithType => "`untagged` is not compatible with `type`"@,
            EnumAttrError::RenameAllWithAs => "`rename_all` is not compatible with `as`"@,
            EnumAttrError::RenameAllFieldsWithAs => "`rename_all_fields` is not compatible with `as`"@,
            EnumAttrError::TagWithAs => "`tag` is not compatible with `as`"@,
            EnumAttrError::ContentWithAs => "`content` is not compatible with `as`"@,
            EnumAttrError::UntaggedWithAs => "`untagged` is not compatible with `as`"@,
            EnumAttrError::UntaggedWithTag => "untagged cannot be used with tag"@,
            EnumAttrError::UntaggedWithContent => "untagged cannot be used with content"@,
            EnumAttrError::ContentWithoutTag => "content cannot be used without tag"@,
        }
    }

    /// The text of the error reported to the user.
    pub fn message(&self) -> (r: &'static str)
        ensures
            r@ == self.spec_message(),
    {
        match self {
            EnumAttrError::AsWithType => "`as` is not compatible with `type`",
            EnumAttrError::RenameAllWithType => "`rename_all` is not compatible with `type`",
            EnumAttrError::RenameAllFieldsWithType => "`rename_all_fields` is not compatible with `type`",
            EnumAttrError::TagWithType => "`tag` is not compatible with `type`",
            EnumAttrError::ContentWithType => "`content` is not compatible with `type`",
            EnumAttrError::UntaggedWithType => "`untagged` is not compatible with `type`",
            EnumAttrError::RenameAllWithAs => "`rename_all` is not compatible with `as`",
            EnumAttrError::RenameAllFieldsWithAs => "`rename_all_fields` is not compatible with `as`",
            EnumAttrError::TagWithAs => "`tag` is not compatible with `as`",
            EnumAttrError::ContentWithAs => "`content` is not compatible with `as`",
            EnumAttrError::UntaggedWithAs => "`untagged` is not compatible with `as`",
            EnumAttrError::UntaggedWithTag => "untagged cannot be used with tag",
            EnumAttrError::UntaggedWithContent => "untagged cannot be used with content",
            EnumAttrError::ContentWithoutTag => "content cannot be used without tag",
        }
    }
}

/// The tagging chosen by `untagged`, `tag` and `content`, or the error for
/// a combination that makes no sense.
pub open spec fn tagging(untagged: bool, tag: Option<String>, content: Option<String>) -> Result<
    TaggingKind,
    EnumAttrError,
> {
    match (untagged, tag, content) {
        (false, None, None) => Ok(TaggingKind::Externally),
        (false, Some(_), None) => Ok(TaggingKind::Internally),
        (false, Some(_), Some(_)) => Ok(TaggingKind::Adjacently),
        (true, None, None) => Ok(TaggingKind::Untagged),
        (true, Some(_), None) => Err(EnumAttrError::UntaggedWithTag),
        (true, _, Some(_)) => Err(EnumAttrError::UntaggedWithContent),
        (false, None, Some(_)) => Err(EnumAttrError::ContentWithoutTag),
    }
}

/// The kind of a `Tagged`, without its names.
#[derive(Copy, Clone, Debug, PartialEq, Eq, Structural)]
pub enum TaggingKind {
    Externally,
    Adjacently,
    Internally,
    Untagged,
}

/// Which of the four representations a tagging chooses, without its field names.
pub open spec fn tagged_kind(t: Tagged) -> TaggingKind {
    match t {
        Tagged::Externally => TaggingKind::Externally,
        Tagged::Adjacently { .. } => TaggingKind::Adjacently,
        Tagged::Internally { .. } => TaggingKind::Internally,
        Tagged::Untagged => TaggingKind::Untagged,
    }
}

impl EnumAttr {
    /// All options unset.
    pub fn new() -> (r: Self)
        ensures
            r.crate_rename is None,
            r.type_as is None,
            r.type_override is None,
            r.rename_all is None,
            r.rename_all_fields is None,
            r.rename is None,
            r.export_to is None,
            !r.export,
            r.docs@.len() == 0,
            r.concrete@.len() == 0,
            r.bound is None,
            r.tag is None,
            !r.untagged,
            r.content is None,
    {
        EnumAttr {
            crate_rename: None,
            type_as: None,
            type_override: None,
            rename_all: None,
            rename_all_fields: None,
            rename: None,
            export_to: None,
            export: false,
            docs: Vec::new(),
            concrete: Vec::new(),
            bound: None,
            tag: None,
            untagged: false,
            content: None,
        }
    }

    /// How the variants are tagged.
    pub fn tagged(&self) -> (r: Result<Tagged<'_>, EnumAttrError>)
        ensures
            match r {
                Ok(t) => tagging(self.untagged, self.tag, self.content) == Ok::<
                    TaggingKind,
                    EnumAttrError,
                >(tagged_kind(t)) && (match t {
                    Tagged::Internally { tag } => self.tag is Some && tag@ == self.tag->0@,
                    Tagged::Adjacently { tag, content } => {
                        &&& self.tag is Some
                        &&& tag@ == self.tag->0@
                        &&& self.content is Some
                        &&& content@ == self.content->0@
                    },
                    _ => true,
                }),
                Err(e) => tagging(self.untagged, self.tag, self.content) == Err::<
                    TaggingKind,
                    EnumAttrError,
                >(e),
            },
    {
        match (self.untagged, &self.tag, &self.content) {
            (false, None, None) => Ok(Tagged::Externally),
            (false, Some(tag), None) => Ok(Tagged::Internally { tag: tag.as_str() }),
            (false, Some(tag), Some(content)) => Ok(
                Tagged::Adjacently { tag: tag.as_str(), content: content.as_str() },
            ),
            (true, None, None) => Ok(Tagged::Untagged),
            (true, Some(_), None) => Err(EnumAttrError::UntaggedWithTag),
            (true, _, Some(_)) => Err(EnumAttrError::UntaggedWithContent),
            (false, None, Some(_)) => Err(EnumAttrError::ContentWithoutTag),
        }
    }

    /// The first refused combination of options, in the order they are checked.
    pub open spec fn validity(&self) -> Option<EnumAttrError> {
        if self.type_override is Some && self.type_as is Some {
            Some(EnumAttrError::AsWithType)
        } else if self.type_override is Some && self.rename_all is Some {
            Some(EnumAttrError::RenameAllWithType)
        } else if self.type_override is Some && self.rename_all_fields is Some {
            Some(EnumAttrError::RenameAllFieldsWithType)
        } else if self.type_override is Some && self.tag is Some {
            Some(EnumAttrError::TagWithType)
        } else if self.type_override is Some && self.content is Some {
            Some(EnumAttrError::ContentWithType)
        } else if self.type_override is Some && self.untagged {
            Some(EnumAttrError::UntaggedWithType)
        } else if self.type_as is Some && self.rename_all is Some {
            Some(EnumAttrError::RenameAllWithAs)
        } else if self.type_as is Some && self.rename_all_fields is Some {
            Some(EnumAttrError::RenameAllFieldsWithAs)
        } else if self.type_as is Some && self.tag is Some {
            Some(EnumAttrError::TagWithAs)
        } else if self.type_as is Some && self.content is Some {
            Some(EnumAttrError::ContentWithAs)
        } else if self.type_as is Some && self.untagged {
            Some(EnumAttrError::UntaggedWithAs)
        } else {
            match tagging(self.untagged, self.tag, self.content) {
                Err(e) => Some(e),
                Ok(_) => None,
            }
        }
    }

    /// Refuses options that cannot be used together.
    pub fn assert_validity(&self) -> (r: Result<(), EnumAttrError>)
        ensures
            match r {
                Ok(()) => self.validity() is None,
                Err(e) => self.validity() == Some(e),
            },
    {
        if self.type_override.is_some() {
            if self.type_as.is_some() {
                return Err(EnumAttrError::AsWithType);
            }
            if self.rename_all.is_some() {
                return Err(EnumAttrError::RenameAllWithType);
            }
            if self.rename_all_fields.is_some() {
                return Err(EnumAttrError::RenameAllFieldsWithType);
            }
            if self.tag.is_some() {
                return Err(EnumAttrError::TagWithType);
            }
            if self.content.is_some() {
                return Err(EnumAttrError::ContentWithType);
            }
            if self.untagged {
                return Err(EnumAttrError::UntaggedWithType);
            }
        }
        if self.type_as.is_some() {
            if self.rename_all.is_some() {
                return Err(EnumAttrError::RenameAllWithAs);
            }
            if self.rename_all_fields.is_some() {
                return Err(EnumAttrError::RenameAllFieldsWithAs);
            }
            if self.tag.is_some() {
                return Err(EnumAttrError::TagWithAs);
            }
            if self.content.is_some() {
                return Err(EnumAttrError::ContentWithAs);
            }
            if self.untagged {
                return Err(EnumAttrError::UntaggedWithAs);
            }
        }
        match (self.untagged, &self.tag, &self.content) {
            (true, Some(_), None) => Err(EnumAttrError::UntaggedWithTag),
            (true, _, Some(_)) => Err(EnumAttrError::UntaggedWithContent),
            (false, None, Some(_)) => Err(EnumAttrError::ContentWithoutTag),
            _ => Ok(()),
        }
    }
}

impl Attr for EnumAttr {
    /// Options set in `a` are kept, the others are taken from `b`; flags are
    /// set when either sets them; docs are those of `b`; concrete types and
    /// bounds of both are kept, those of `a` first (a parameter fixed by both
    /// is then looked up in `b`'s entries: see `concrete_position`).
    open spec fn merged(a: Self, b: Self, r: Self) -> bool {
        &&& r.crate_rename == option_or(a.crate_rename, b.crate_rename)
        &&& r.type_as == option_or(a.type_as, b.type_as)
        &&& r.type_override == option_or(a.type_override, b.type_override)
        &&& r.rename == option_or(a.rename, b.rename)
        &&& r.rename_all == option_or(a.rename_all, b.rename_all)
        &&& r.rename_all_fields == option_or(a.rename_all_fields, b.rename_all_fields)
        &&& r.tag == option_or(a.tag, b.tag)
        &&& r.untagged == (a.untagged || b.untagged)
        &&& r.content == option_or(a.content, b.content)
        &&& r.export == (a.export || b.export)
        &&& r.export_to == option_or(a.export_to, b.export_to)
        &&& r.docs == b.docs
        &&& r.concrete@ == a.concrete@ + b.concrete@
        &&& bound_view(r.bound) == bound_or(a.bound, b.bound)
    }

    fn merge(self, other: Self) -> (r: Self) {
        let mut concrete = self.concrete;
        let mut other_concrete = other.concrete;
        concrete.append(&mut other_concrete);
        EnumAttr {
            crate_rename: merge_option(self.crate_rename, other.crate_rename),
            type_as: merge_option(self.type_as, other.type_as),
            type_override: merge_option(self.type_override, other.type_override),
            rename: merge_option(self.rename, other.rename),
            rename_all: merge_option(self.rename_all, other.rename_all),
            rename_all_fields: merge_option(self.rename_all_fields, other.rename_all_fields),
            tag: merge_option(self.tag, other.tag),
            untagged: self.untagged || other.untagged,
            content: merge_option(self.content, other.content),
            export: self.export || other.export,
            export_to: merge_option(self.export_to, other.export_to),
            docs: other.docs,
            concrete,
            bound: merge_bound(self.bound, other.bound),
        }
    }
}

/// Whether two enum option sets hold the same options.
pub open spec fn same_enum_options(x: EnumAttr, y: EnumAttr) -> bool {
    &&& x.crate_rename == y.crate_rename
    &&& x.type_as == y.type_as
    &&& x.type_override == y.type_override
    &&& x.rename_all == y.rename_all
    &&& x.rename_all_fields == y.rename_all_fields
    &&& x.rename == y.rename
    &&& x.export_to == y.export_to
    &&& x.export == y.export
    &&& x.docs@ == y.docs@
    &&& x.concrete@ == y.concrete@
    &&& bound_view(x.bound) == bound_view(y.bound)
    &&& x.tag == y.tag
    &&& x.untagged == y.untagged
    &&& x.content == y.content
}

/// Whether no option is set.
pub open spec fn enum_unset(x: EnumAttr) -> bool {
    &&& x.crate_rename is None
    &&& x.type_as is None
    &&& x.type_override is None
    &&& x.rename_all is None
    &&& x.rename_all_fields is None
    &&& x.rename is None
    &&& x.export_to is None
    &&& !x.export
    &&& x.docs@.len() == 0
    &&& x.concrete@.len() == 0
    &&& x.bound is None
    &&& x.tag is None
    &&& !x.untagged
    &&& x.content is None
}

/// Repeated attributes can be combined in any grouping.
pub proof fn lemma_enum_merge_associative(
    a: EnumAttr,
    b: EnumAttr,
    c: EnumAttr,
    ab: EnumAttr,
    bc: EnumAttr,
    left: EnumAttr,
    right: EnumAttr,
)
    requires
        EnumAttr::merged(a, b, ab),
        EnumAttr::merged(ab, c, left),
        EnumAttr::merged(b, c, bc),
        EnumAttr::merged(a, bc, right),
    ensures
        same_enum_options(left, right),
{
    assert(left.concrete@ =~= right.concrete@);
    assert(bound_view(left.bound) =~= bound_view(right.bound)) by {
        if a.bound is Some && b.bound is Some && c.bound is Some {
            assert(a.bound->0@ + b.bound->0@ + c.bound->0@ =~= a.bound->0@ + (b.bound->0@ + c.bound->0@));
        }
    }
}

/// Merging into the unset options gives the other options.
pub proof fn lemma_enum_merge_unset(u: EnumAttr, a: EnumAttr, r: EnumAttr)
    requires
        enum_unset(u),
        EnumAttr::merged(u, a, r),
    ensures
        same_enum_options(r, a),
{
    assert(r.concrete@ =~= a.concrete@);
}

/// Whether the options that error `e` names are set together on `a`.
pub open spec fn enum_conflict(a: EnumAttr, e: EnumAttrError) -> bool {
    match e {
        EnumAttrError::AsWithType => a.type_override is Some && a.type_as is Some,
        EnumAttrError::RenameAllWithType => a.type_override is Some && a.rename_all is Some,
        EnumAttrError::RenameAllFieldsWithType => a.type_override is Some && a.rename_all_fields is Some,
        EnumAttrError::TagWithType => a.type_override is Some && a.tag is Some,
        EnumAttrError::ContentWithType => a.type_override is Some && a.content is Some,
        EnumAttrError::UntaggedWithType => a.type_override is Some && a.untagged,
        EnumAttrError::RenameAllWithAs => a.type_as is Some && a.rename_all is Some,
        EnumAttrError::RenameAllFieldsWithAs => a.type_as is Some && a.rename_all_fields is Some,
        EnumAttrError::TagWithAs => a.type_as is Some && a.tag is Some,
        EnumAttrError::ContentWithAs => a.type_as is Some && a.content is Some,
        EnumAttrError::UntaggedWithAs => a.type_as is Some && a.untagged,
        EnumAttrError::UntaggedWithTag => a.untagged && a.tag is Some,
        EnumAttrError::UntaggedWithContent => a.untagged && a.content is Some,
        EnumAttrError::ContentWithoutTag => a.content is Some && a.tag is None,
    }
}

/// An enum's options are accepted exactly when no two of them conflict
/// (`content` needs a `tag`); a refusal names a conflict that is really there.
/// Accepted options choose the tagging: `untagged` alone, else by which of
/// `tag` and `content` are set.
pub proof fn lemma_enum_refusals_are_conflicts(a: EnumAttr)
    ensures
        a.validity() is None <==> forall|e: EnumAttrError| !#[trigger] enum_conflict(a, e),
        a.validity() matches Some(e) ==> enum_conflict(a, e),
        a.validity() is None ==> tagging(a.untagged, a.tag, a.content) == Ok::<TaggingKind, EnumAttrError>(
            if a.untagged {
                TaggingKind::Untagged
            } else if a.tag is None {
                TaggingKind::Externally
            } else if a.content is None {
                TaggingKind::Internally
            } else {
                TaggingKind::Adjacently
            },
        ),
{
    if a.validity() is None {
        assert forall|e: EnumAttrError| !#[trigger] enum_conflict(a, e) by {
            match e {
                _ => {},
            }
        }
    } else {
        let e = a.validity()->Some_0;
        assert(enum_conflict(a, e));
    }
}

} // verus!
