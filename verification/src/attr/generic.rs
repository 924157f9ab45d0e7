//! Options of a generic parameter.
use vstd::prelude::*;

use crate::text::opt_view;

verus! {

/// The options of a generic parameter, from `#[ts(..)]`.
pub struct GenericAttr {
    pub concrete: Option<String>,
}

impl GenericAttr {
    /// No option set.
    pub fn new() -> (r: Self)
        ensures
            r.concrete is None,
    {
        GenericAttr { concrete: None }
    }

    /// Absorbs a later attribute: a concrete type already set is kept.
    pub fn merge(&mut self, other: GenericAttr)
        ensures
            opt_view(final(self).concrete) == match old(self).concrete {
                Some(c) => Some(c@),
                None => opt_view(other.concrete),
            },
    {
        let mine = self.concrete.take();
        self.concrete = match mine {
            Some(c) => Some(c),
            None => other.concrete,
        };
    }
}

} // verus!
