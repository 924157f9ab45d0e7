//! Options of a function exported as a TypeScript function type.
use vstd::prelude::*;

use crate::inflection::Inflection;
use crate::text::{push_str, str_equal, string_from};

verus! {

/// The options of a function, from `#[ts(..)]`.
pub struct FnAttr {
    /// The path given with `#[ts(crate = "..")]`, if any.
    pub crate_rename: Option<syn::Path>,
    pub args: Args,
    pub export_to: Option<String>,
    pub rename: Option<String>,
    pub rename_all: Option<Inflection>,
}

/// How the arguments of a function are written.
#[derive(Copy, Clone, Debug, PartialEq, Eq, Structural)]
pub enum Args {
    Flattened,
    Inlined,
}

impl Default for Args {
    fn default() -> (r: Self)
        ensures
            r == Args::Flattened,
    {
        Args::Flattened
    }
}

/// An `args = ".."` value that is neither `"inlined"` nor `"flattened"`.
pub struct InvalidArgs {
    pub found: String,
}

impl InvalidArgs {
    /// The text that reports an unknown value `found` for `args`.
    pub open spec fn spec_message(found: Seq<char>) -> Seq<char> {
        "Expected \"inlined\" or \"flattened\", found \""@ + found + "\""@
    }

    /// The text of the error reported to the user.
    pub fn message(&self) -> (r: String)
        ensures
            r@ == Self::spec_message(self.found@),
    {
        let mut r = string_from("Expected \"inlined\" or \"flattened\", found \"");
        push_str(&mut r, self.found.as_str());
        push_str(&mut r, "\"");
        r
    }
}

impl Args {
    /// The argument style named by `s`.
    pub fn try_from(s: String) -> (r: Result<Args, InvalidArgs>)
        ensures
            match r {
                Ok(a) => (s@ == "inlined"@ && a == Args::Inlined) || (s@ == "flattened"@ && a
                    == Args::Flattened),
                Err(e) => s@ != "inlined"@ && s@ != "flattened"@ && e.found@ == s@,
            },
    {
        if str_equal(s.as_str(), "inlined") {
            Ok(Args::Inlined)
        } else if str_equal(s.as_str(), "flattened") {
            Ok(Args::Flattened)
        } else {
            Err(InvalidArgs { found: s })
        }
    }
}

impl FnAttr {
    /// All options unset.
    pub fn new() -> (r: Self)
        ensures
            r.crate_rename is None,
            r.args == Args::Flattened,
            r.export_to is None,
            r.rename is None,
            r.rename_all is None,
    {
        FnAttr {
            crate_rename: None,
            args: Args::Flattened,
            export_to: None,
            rename: None,
            rename_all: None,
        }
    }
}

} // verus!
