//! Making the output directory absolute without touching the file system.
use vstd::prelude::*;

verus! {

/// One component of a path, as `std::path::Path::components` splits it.
#[derive(Clone, Debug)]
pub enum Component {
    /// A Windows drive or share prefix.
    Prefix(String),
    RootDir,
    CurDir,
    ParentDir,
    Normal(String),
}

/// Whether a component is `.`.
pub open spec fn is_cur_dir(c: Component) -> bool {
    c is CurDir
}

/// Whether a component is `..`.
pub open spec fn is_parent_dir(c: Component) -> bool {
    c is ParentDir
}

/// `..` goes to the parent of what came before.
#[derive(Copy, Clone, Debug, PartialEq, Eq, Structural)]
pub struct InvalidPath;

impl InvalidPath {
    /// The text that reports this error.
    pub fn message(&self) -> (r: &'static str)
        ensures
            r@ == "Invalid path"@,
    {
        "Invalid path"
    }
}

/// The components after resolving `.` and `..` lexically: `.` is dropped and
/// `..` removes the component before it; `None` when a `..` has nothing to remove.
pub open spec fn resolve(comps: Seq<Component>) -> Option<Seq<Component>>
    decreases comps.len(),
{
    if comps.len() == 0 {
        Some(Seq::empty())
    } else {
        match resolve(comps.drop_last()) {
            None => None,
            Some(out) => match comps.last() {
                Component::CurDir => Some(out),
                Component::ParentDir => if out.len() > 0 {
                    Some(out.drop_last())
                } else {
                    None
                },
                c => Some(out.push(c)),
            },
        }
    }
}

/// The components of the normalized path: the resolved ones, or `.` alone
/// when nothing is left.
pub open spec fn normalized(comps: Seq<Component>) -> Option<Seq<Component>> {
    match resolve(comps) {
        None => None,
        Some(out) => if out.len() == 0 {
            Some(seq![Component::CurDir])
        } else {
            Some(out)
        },
    }
}

/// Resolves `.` and `..` in the components of an absolute path (the current
/// directory joined with the given path).
pub fn normalize(comps: Vec<Component>) -> (r: Result<Vec<Component>, InvalidPath>)
    ensures
        match r {
            Ok(out) => normalized(comps@) == Some(out@),
            Err(_) => normalized(comps@) is None,
        },
{
    let mut out: Vec<Component> = Vec::new();
    let n = comps.len();
    let ghost orig = comps@;
    let mut rest = comps;
    let mut i: usize = 0;
    // walk from the back of a reversed copy so that items can be moved out
    let mut rev: Vec<Component> = Vec::new();
    while rest.len() > 0
        invariant
            rev@.len() + rest@.len() == n,
            orig.len() == n,
            rest@ == orig.take(rest@.len() as int),
            forall|j: int| 0 <= j < rev@.len() ==> #[trigger] rev@[j] == orig[n - 1 - j],
        decreases rest@.len(),
    {
        let c = rest.pop().unwrap();
        rev.push(c);
        assert(rest@ =~= orig.take(rest@.len() as int));
    }
    while i < n
        invariant
            i <= n,
            rev@.len() == n - i,
            orig.len() == n,
            forall|j: int| 0 <= j < rev@.len() ==> #[trigger] rev@[j] == orig[n - 1 - j],
            resolve(orig.take(i as int)) == Some(out@),
            orig == comps@,
        decreases n - i,
    {
        let c = rev.pop().unwrap();
        assert(c == orig[i as int]);
        let ghost t = orig.take(i as int + 1);
        assert(t.drop_last() =~= orig.take(i as int));
        assert(t.last() == c);
        match c {
            Component::CurDir => {},
            Component::ParentDir => {
                if out.len() == 0 {
                    proof {
                        assert(t.last() is ParentDir);
                        assert(resolve(t) is None);
                        lemma_resolve_none_extends(orig, i as int + 1);
                        assert(normalized(orig) is None);
                    }
                    return Err(InvalidPath);
                }
                out.pop();
            },
            c => {
                out.push(c);
            },
        }
        i = i + 1;
    }
    assert(orig.take(n as int) =~= orig);
    if out.len() == 0 {
        let mut dot: Vec<Component> = Vec::new();
        dot.push(Component::CurDir);
        Ok(dot)
    } else {
        Ok(out)
    }
}

proof fn lemma_resolve_none_extends(s: Seq<Component>, k: int)
    requires
        0 <= k <= s.len(),
        resolve(s.take(k)) is None,
    ensures
        resolve(s) is None,
    decreases s.len() - k,
{
    if k < s.len() {
        assert(s.take(k + 1).drop_last() =~= s.take(k));
        lemma_resolve_none_extends(s, k + 1);
    } else {
        assert(s.take(k) =~= s);
    }
}

/// After resolving, no `.` or `..` is left.
pub proof fn lemma_resolve_leaves_no_dots(comps: Seq<Component>)
    ensures
        resolve(comps) matches Some(out) ==> forall|j: int|
            0 <= j < out.len() ==> !is_cur_dir(#[trigger] out[j]) && !is_parent_dir(out[j]),
    decreases comps.len(),
{
    if comps.len() > 0 {
        lemma_resolve_leaves_no_dots(comps.drop_last());
    }
}

/// A normalized path is `.` alone, or holds no `.` or `..` at all.
pub proof fn lemma_normalized_shape(comps: Seq<Component>)
    ensures
        normalized(comps) matches Some(out) ==> (out == seq![Component::CurDir] || forall|j: int|
            0 <= j < out.len() ==> !is_cur_dir(#[trigger] out[j]) && !is_parent_dir(out[j])),
{
    lemma_resolve_leaves_no_dots(comps);
}

/// A path without `.` or `..` is left as it is.
pub proof fn lemma_resolve_plain(comps: Seq<Component>)
    requires
        forall|j: int| 0 <= j < comps.len() ==> !is_cur_dir(#[trigger] comps[j]) && !is_parent_dir(comps[j]),
    ensures
        resolve(comps) == Some(comps),
    decreases comps.len(),
{
    if comps.len() > 0 {
        lemma_resolve_plain(comps.drop_last());
        assert(comps.drop_last().push(comps.last()) =~= comps);
    }
}

/// Normalizing twice gives what normalizing once gave.
pub proof fn lemma_normalize_idempotent(comps: Seq<Component>)
    ensures
        normalized(comps) matches Some(out) ==> normalized(out) == Some(out),
{
    lemma_normalized_shape(comps);
    if let Some(out) = normalized(comps) {
        if out == seq![Component::CurDir] {
            assert(out.drop_last() =~= Seq::<Component>::empty());
            assert(resolve(out.drop_last()) == Some(Seq::<Component>::empty()));
            assert(out.last() == Component::CurDir);
            assert(resolve(out) == Some(Seq::<Component>::empty()));
        } else {
            lemma_resolve_plain(out);
            lemma_resolve_leaves_no_dots(comps);
        }
    }
}

} // verus!
