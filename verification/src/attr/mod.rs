//! Options read from `#[ts(..)]` (and supported `#[serde(..)]`) attributes,
//! how repeated attributes combine, and which combinations are refused.
use vstd::prelude::*;

use crate::text::{join, joined, push_str, str_equal, string_from, string_seq_views};

pub mod args;
pub mod enum_attr;
pub mod field;
pub mod fn_attr;
pub mod generic;
pub mod struct_attr;
pub mod variant;

verus! {

/// An attribute set that can absorb a later one.
pub trait Attr: Sized {
    /// `r` is what `a.merge(b)` gives.
    spec fn merged(a: Self, b: Self, r: Self) -> bool;

    fn merge(self, other: Self) -> (r: Self)
        ensures
            Self::merged(self, other, r),
    ;
}

/// Options read from `#[serde(..)]` attributes.
pub struct Serde<T>(pub T);

impl<T: Attr> Serde<T> {
    /// Merges two attributes read from `serde` as the inner type's `merge` does.
    pub fn merge(self, other: Self) -> (r: Self)
        ensures
            T::merged(self.0, other.0, r.0),
    {
        Serde(self.0.merge(other.0))
    }
}

/// The first of two options that is set.
pub open spec fn option_or<T>(a: Option<T>, b: Option<T>) -> Option<T> {
    match a {
        Some(x) => Some(x),
        None => b,
    }
}

/// Two optional lists combined: both joined when both are set.
pub open spec fn bound_or<T>(a: Option<Vec<T>>, b: Option<Vec<T>>) -> Option<Seq<T>> {
    match (a, b) {
        (Some(x), Some(y)) => Some(x@ + y@),
        (Some(x), None) => Some(x@),
        (None, Some(y)) => Some(y@),
        (None, None) => None,
    }
}

/// An optional list of bounds, by the sequence it holds.
pub open spec fn bound_view<T>(a: Option<Vec<T>>) -> Option<Seq<T>> {
    match a {
        Some(x) => Some(x@),
        None => None,
    }
}

/// The first value where there is one, else the second.
pub fn merge_option<T>(a: Option<T>, b: Option<T>) -> (r: Option<T>)
    ensures
        r == option_or(a, b),
{
    match a {
        Some(x) => Some(x),
        None => b,
    }
}

/// Both lists of bounds joined, the first one's bounds first, where both are set; else the one that is.
pub fn merge_bound<T>(a: Option<Vec<T>>, b: Option<Vec<T>>) -> (r: Option<Vec<T>>)
    ensures
        bound_view(r) == bound_or(a, b),
{
    match (a, b) {
        (Some(x), Some(y)) => {
            let mut x = x;
            let mut y = y;
            x.append(&mut y);
            Some(x)
        },
        (Some(bound), None) | (None, Some(bound)) => Some(bound),
        (None, None) => None,
    }
}

/// The error for a key that the attribute does not know.
pub open spec fn unknown_attribute_text(key: Seq<char>, allowed: Seq<Seq<char>>) -> Seq<char> {
    "Unknown attribute \""@ + key + "\". Allowed attributes are: "@ + joined(allowed, ", "@)
}

/// Writes the error for a key that the attribute does not know, with the
/// keys it does.
pub fn unknown_attribute(key: &str, allowed: &Vec<String>) -> (r: String)
    ensures
        r@ == unknown_attribute_text(key@, string_seq_views(allowed@)),
{
    let mut s = string_from("Unknown attribute \"");
    push_str(&mut s, key);
    push_str(&mut s, "\". Allowed attributes are: ");
    let keys = join(allowed, ", ");
    push_str(&mut s, keys.as_str());
    s
}

/// One step of merging: a readable attribute `read` is merged into `before`
/// to give `after`; an unreadable one (`None`) leaves it as it was.
pub open spec fn merge_step<T: Attr>(before: T, read: Option<T>, after: T) -> bool {
    match read {
        Some(x) => T::merged(before, x, after),
        None => after == before,
    }
}

/// `chain` holds the attribute before and after each step of merging the
/// readable attributes of `reads` into `start`, in order: it starts with
/// `start` and ends with `r`.
pub open spec fn merge_chain<T: Attr>(start: T, reads: Seq<Option<T>>, chain: Seq<T>, r: T) -> bool {
    &&& chain.len() == reads.len() + 1
    &&& chain[0] == start
    &&& chain.last() == r
    &&& forall|i: int| 0 <= i < reads.len() ==> merge_step(chain[i], #[trigger] reads[i], chain[i + 1])
}

/// Merges the attributes that could be read, in order, into `start`, and
/// leaves out those that could not (as the derive does with `#[serde(..)]`
/// attributes it cannot read, after warning about them).
pub fn merge_readable<T: Attr>(start: T, reads: Vec<Option<T>>) -> (r: T)
    ensures
        exists|chain: Seq<T>| merge_chain(start, reads@, chain, r),
{
    let ghost all = reads@;
    let mut rest = reads;
    let mut acc = start;
    let ghost mut chain: Seq<T> = seq![acc];
    let mut i: usize = 0;
    let n = rest.len();
    proof {
        assert(all.skip(0) =~= all);
    }
    while i < n
        invariant
            n == all.len(),
            i <= n,
            rest@ == all.skip(i as int),
            chain.len() == i + 1,
            chain[0] == start,
            chain.last() == acc,
            forall|k: int| 0 <= k < i ==> merge_step(chain[k], #[trigger] all[k], chain[k + 1]),
        decreases n - i,
    {
        let ghost before = acc;
        let x = rest.remove(0);
        proof {
            assert(x == all[i as int]);
            assert(rest@ =~= all.skip(i + 1));
        }
        match x {
            Some(found) => {
                acc = acc.merge(found);
            },
            None => {},
        }
        proof {
            assert(merge_step(before, all[i as int], acc));
            let old_chain = chain;
            chain = chain.push(acc);
            assert forall|k: int| 0 <= k < i + 1 implies merge_step(chain[k], #[trigger] all[k], chain[k + 1]) by {
                if k < i {
                    assert(chain[k] == old_chain[k]);
                    assert(chain[k + 1] == old_chain[k + 1]);
                }
            }
        }
        i = i + 1;
    }
    assert(merge_chain(start, all, chain, acc));
    acc
}

/// Where the concrete type of the parameter `n` is found among the names of
/// `concrete(..)` entries: the last entry with that name, as a map filled in
/// order keeps it; nothing where no entry names it.
pub open spec fn last_named(names: Seq<Seq<char>>, n: Seq<char>) -> Option<int>
    decreases names.len(),
{
    if names.len() == 0 {
        None
    } else if names.last() == n {
        Some(names.len() - 1)
    } else {
        last_named(names.drop_last(), n)
    }
}

/// Finds the entry that fixes the parameter `name`, given the names of the
/// `concrete(..)` entries in order: the last one with that name wins.
pub fn concrete_position(names: &Vec<String>, name: &str) -> (r: Option<usize>)
    ensures
        match r {
            Some(i) => last_named(string_seq_views(names@), name@) == Some(i as int),
            None => last_named(string_seq_views(names@), name@) is None,
        },
{
    let ghost v = string_seq_views(names@);
    let mut k = names.len();
    proof {
        assert(v.take(k as int) =~= v);
    }
    while k > 0
        invariant
            k <= names@.len(),
            v == string_seq_views(names@),
            last_named(v, name@) == last_named(v.take(k as int), name@),
        decreases k,
    {
        let ghost t = v.take(k as int);
        proof {
            assert(t.drop_last() =~= v.take(k - 1));
            assert(t.last() == names@[k - 1]@);
        }
        if str_equal(names[k - 1].as_str(), name) {
            return Some(k - 1);
        }
        k = k - 1;
    }
    proof {
        assert(v.take(0) =~= Seq::<Seq<char>>::empty());
    }
    None
}

/// Concrete types given by a later attribute win: after `a`'s entries come
/// `b`'s (as the attribute merges put them), a name that `b` fixes is found
/// among `b`'s entries, and any other name where `a` has it.
pub proof fn lemma_later_concrete_wins(a: Seq<Seq<char>>, b: Seq<Seq<char>>, n: Seq<char>)
    ensures
        last_named(a + b, n) == match last_named(b, n) {
            Some(i) => Some(a.len() + i),
            None => last_named(a, n),
        },
    decreases b.len(),
{
    if b.len() == 0 {
        assert(a + b =~= a);
    } else {
        assert((a + b).drop_last() =~= a + b.drop_last());
        assert((a + b).last() == b.last());
        lemma_later_concrete_wins(a, b.drop_last(), n);
    }
}

} // verus!
