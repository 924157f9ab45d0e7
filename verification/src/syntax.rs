//! Syntax trees of the `syn` crate that attributes carry through unchanged.
//!
//! The logic never looks inside these values; it only keeps, moves and
//! combines them.
use vstd::prelude::*;

verus! {

/// Declares `syn::Type`, a Rust type as `syn` parses it.
#[verifier::external_type_specification]
#[verifier::external_body]
pub struct ExSynType(syn::Type);

/// Declares `syn::Expr`, a Rust expression as `syn` parses it.
#[verifier::external_type_specification]
#[verifier::external_body]
pub struct ExSynExpr(syn::Expr);

/// Declares `syn::Path`, a Rust path as `syn` parses it.
#[verifier::external_type_specification]
#[verifier::external_body]
pub struct ExSynPath(syn::Path);

/// Declares `syn::WherePredicate`, one bound of a `where` clause.
#[verifier::external_type_specification]
#[verifier::external_body]
pub struct ExSynWherePredicate(syn::WherePredicate);

/// Declares `proc_macro2::Ident`, an identifier with its span.
#[verifier::external_type_specification]
#[verifier::external_body]
pub struct ExIdent(proc_macro2::Ident);

/// Calls `Clone::clone` on a `syn::Expr`. syn derives `Clone` for its syntax
/// trees field by field, so the copy is the same tree; the contract says so.
#[verifier::external_body]
pub(crate) fn clone_expr(e: &syn::Expr) -> (r: syn::Expr)
    ensures
        r == *e,
{
    e.clone()
}

} // verus!
