//! The types a derived type depends on, which its `TS` impl visits.
//!
//! A type is held by the text of its tokens, which stands for it: two types
//! are the same dependency when their texts are equal.
use vstd::prelude::*;

use crate::text::{str_equal, string_from, string_seq_views};

verus! {

/// How a type is visited.
#[derive(Clone, Copy, Debug, PartialEq, Eq, Structural)]
pub enum DepKind {
    /// The type's own dependencies, not the type itself.
    Transitive,
    /// The type's generic parameters, not the type itself.
    Generics,
    /// The type itself.
    Type,
}

/// A dependency: how a type is visited, and the type.
pub struct Dependency {
    pub kind: DepKind,
    pub ty: String,
}

/// A dependency as the pair of its kind and its type's text.
pub open spec fn dep_view(d: Dependency) -> (DepKind, Seq<char>) {
    (d.kind, d.ty@)
}

/// A dependency as the pair of its kind and its type's text.
/// The dependencies of a list, each as the pair of its kind and its type's text.
pub open spec fn dep_views(s: Seq<Dependency>) -> Seq<(DepKind, Seq<char>)> {
    s.map_values(|d: Dependency| dep_view(d))
}

/// The dependencies of a derived type, and the types they name.
pub struct Dependencies {
    crate_rename: syn::Path,
    entries: Vec<Dependency>,
    types: Vec<String>,
}

impl View for Dependencies {
    /// The types named, and the dependencies.
    type V = (Set<Seq<char>>, Set<(DepKind, Seq<char>)>);

    closed spec fn view(&self) -> Self::V {
        (string_seq_views(self.types@).to_set(), dep_views(self.entries@).to_set())
    }
}

fn contains_string(v: &Vec<String>, s: &str) -> (r: bool)
    ensures
        r == string_seq_views(v@).contains(s@),
{
    let mut i: usize = 0;
    while i < v.len()
        invariant
            i <= v@.len(),
            forall|j: int| 0 <= j < i ==> v@[j]@ != s@,
        decreases v@.len() - i,
    {
        if str_equal(v[i].as_str(), s) {
            assert(string_seq_views(v@)[i as int] == s@);
            return true;
        }
        i = i + 1;
    }
    assert forall|j: int| 0 <= j < v@.len() implies string_seq_views(v@)[j] != s@ by {
        assert(string_seq_views(v@)[j] == v@[j]@);
    }
    false
}

fn contains_dep(v: &Vec<Dependency>, kind: DepKind, s: &str) -> (r: bool)
    ensures
        r == dep_views(v@).contains((kind, s@)),
{
    let mut i: usize = 0;
    while i < v.len()
        invariant
            i <= v@.len(),
            forall|j: int| 0 <= j < i ==> dep_view(v@[j]) != (kind, s@),
        decreases v@.len() - i,
    {
        if v[i].kind == kind && str_equal(v[i].ty.as_str(), s) {
            assert(dep_views(v@)[i as int] == (kind, s@));
            return true;
        }
        i = i + 1;
    }
    assert forall|j: int| 0 <= j < v@.len() implies dep_views(v@)[j] != (kind, s@) by {
        assert(dep_views(v@)[j] == dep_view(v@[j]));
    }
    false
}

/// Adds `s` to `v` unless it is there already.
fn insert_string(v: &mut Vec<String>, s: &str)
    requires
        string_seq_views(old(v)@).no_duplicates(),
    ensures
        string_seq_views(final(v)@).no_duplicates(),
        string_seq_views(final(v)@).to_set() == string_seq_views(old(v)@).to_set().insert(s@),
{
    if !contains_string(v, s) {
        let ghost before = string_seq_views(v@);
        v.push(string_from(s));
        proof {
            assert(string_seq_views(v@) =~= before.push(s@));
            before.lemma_push_to_set_commute(s@);
        }
    } else {
        assert(string_seq_views(v@).to_set() =~= string_seq_views(v@).to_set().insert(s@));
    }
}

/// Adds the dependency to `v` unless it is there already.
fn insert_dep(v: &mut Vec<Dependency>, kind: DepKind, s: &str)
    requires
        dep_views(old(v)@).no_duplicates(),
    ensures
        dep_views(final(v)@).no_duplicates(),
        dep_views(final(v)@).to_set() == dep_views(old(v)@).to_set().insert((kind, s@)),
{
    if !contains_dep(v, kind, s) {
        let ghost before = dep_views(v@);
        v.push(Dependency { kind, ty: string_from(s) });
        proof {
            assert(dep_views(v@) =~= before.push((kind, s@)));
            before.lemma_push_to_set_commute((kind, s@));
        }
    } else {
        assert(dep_views(v@).to_set() =~= dep_views(v@).to_set().insert((kind, s@)));
    }
}

impl Dependencies {
    #[verifier::type_invariant]
    spec fn inv(self) -> bool {
        &&& string_seq_views(self.types@).no_duplicates()
        &&& dep_views(self.entries@).no_duplicates()
    }

    /// No dependencies, for types of the crate at `crate_rename`.
    pub fn new(crate_rename: syn::Path) -> (r: Self)
        ensures
            r@.0 == Set::<Seq<char>>::empty(),
            r@.1 == Set::<(DepKind, Seq<char>)>::empty(),
            r.crate_rename() == crate_rename,
    {
        let r = Dependencies { crate_rename, entries: Vec::new(), types: Vec::new() };
        assert(string_seq_views(r.types@).to_set() =~= Set::<Seq<char>>::empty());
        assert(dep_views(r.entries@).to_set() =~= Set::<(DepKind, Seq<char>)>::empty());
        r
    }

    /// The path by which generated code names this library.
    pub closed spec fn crate_rename(&self) -> syn::Path {
        self.crate_rename
    }

    /// The path of the crate the dependencies are visited through.
    pub fn crate_path(&self) -> (r: &syn::Path)
        ensures
            *r == self.crate_rename(),
    {
        &self.crate_rename
    }

    /// The types named by the dependencies, each once.
    pub fn used_types(&self) -> (r: Vec<String>)
        ensures
            string_seq_views(r@).to_set() == self@.0,
            string_seq_views(r@).no_duplicates(),
    {
        proof {
            use_type_invariant(self);
        }
        let mut out: Vec<String> = Vec::new();
        let mut i: usize = 0;
        while i < self.types.len()
            invariant
                i <= self.types@.len(),
                string_seq_views(out@) == string_seq_views(self.types@).take(i as int),
            decreases self.types@.len() - i,
        {
            let ghost before = out@;
            out.push(string_from(self.types[i].as_str()));
            proof {
                assert(string_seq_views(out@) =~= string_seq_views(before).push(self.types@[i as int]@));
                assert(string_seq_views(out@) =~= string_seq_views(self.types@).take(i + 1));
            }
            i = i + 1;
        }
        proof {
            assert(string_seq_views(self.types@).take(self.types@.len() as int) =~= string_seq_views(
                self.types@,
            ));
        }
        out
    }

    /// The dependencies, each once.
    pub fn entries(&self) -> (r: Vec<Dependency>)
        ensures
            dep_views(r@).to_set() == self@.1,
            dep_views(r@).no_duplicates(),
    {
        proof {
            use_type_invariant(self);
        }
        let mut out: Vec<Dependency> = Vec::new();
        let mut i: usize = 0;
        while i < self.entries.len()
            invariant
                i <= self.entries@.len(),
                dep_views(out@) == dep_views(self.entries@).take(i as int),
            decreases self.entries@.len() - i,
        {
            let ghost before = out@;
            out.push(Dependency { kind: self.entries[i].kind, ty: string_from(self.entries[i].ty.as_str()) });
            proof {
                assert(dep_views(out@) =~= dep_views(before).push(dep_view(self.entries@[i as int])));
                assert(dep_views(out@) =~= dep_views(self.entries@).take(i + 1));
            }
            i = i + 1;
        }
        proof {
            assert(dep_views(self.entries@).take(self.entries@.len() as int) =~= dep_views(
                self.entries@,
            ));
        }
        out
    }

    /// Adds all dependencies of `ty`, but not `ty` itself.
    pub fn append_from(&mut self, ty: &str)
        ensures
            final(self)@.0 == old(self)@.0.insert(ty@),
            final(self)@.1 == old(self)@.1.insert((DepKind::Transitive, ty@)),
            final(self).crate_rename() == old(self).crate_rename(),
    {
        proof {
            use_type_invariant(&*self);
        }
        let mut types: Vec<String> = Vec::new();
        let mut entries: Vec<Dependency> = Vec::new();
        std::mem::swap(&mut types, &mut self.types);
        std::mem::swap(&mut entries, &mut self.entries);
        insert_string(&mut types, ty);
        insert_dep(&mut entries, DepKind::Transitive, ty);
        self.types = types;
        self.entries = entries;
    }

    /// Adds `ty` itself and its generic parameters.
    pub fn push(&mut self, ty: &str)
        ensures
            final(self)@.0 == old(self)@.0.insert(ty@),
            final(self)@.1 == old(self)@.1.insert((DepKind::Type, ty@)).insert((DepKind::Generics, ty@)),
            final(self).crate_rename() == old(self).crate_rename(),
    {
        proof {
            use_type_invariant(&*self);
        }
        let mut types: Vec<String> = Vec::new();
        let mut entries: Vec<Dependency> = Vec::new();
        std::mem::swap(&mut types, &mut self.types);
        std::mem::swap(&mut entries, &mut self.entries);
        insert_string(&mut types, ty);
        insert_dep(&mut entries, DepKind::Type, ty);
        insert_dep(&mut entries, DepKind::Generics, ty);
        self.types = types;
        self.entries = entries;
    }

    /// Adds all dependencies and types of `other`.
    pub fn append(&mut self, other: Dependencies)
        ensures
            final(self)@.0 == old(self)@.0.union(other@.0),
            final(self)@.1 == old(self)@.1.union(other@.1),
            final(self).crate_rename() == old(self).crate_rename(),
    {
        proof {
            use_type_invariant(&*self);
            use_type_invariant(&other);
        }
        let mut types: Vec<String> = Vec::new();
        let mut entries: Vec<Dependency> = Vec::new();
        std::mem::swap(&mut types, &mut self.types);
        std::mem::swap(&mut entries, &mut self.entries);
        let ghost t0 = string_seq_views(types@).to_set();
        let ghost e0 = dep_views(entries@).to_set();
        let mut i: usize = 0;
        while i < other.types.len()
            invariant
                i <= other.types@.len(),
                string_seq_views(types@).no_duplicates(),
                string_seq_views(types@).to_set() == t0.union(string_seq_views(other.types@).take(i as int).to_set()),
            decreases other.types@.len() - i,
        {
            insert_string(&mut types, other.types[i].as_str());
            proof {
                let o = string_seq_views(other.types@);
                assert(o.take(i + 1) =~= o.take(i as int).push(o[i as int]));
                o.take(i as int).lemma_push_to_set_commute(o[i as int]);
                assert(string_seq_views(types@).to_set() =~= t0.union(o.take(i + 1).to_set()));
            }
            i = i + 1;
        }
        let mut j: usize = 0;
        while j < other.entries.len()
            invariant
                j <= other.entries@.len(),
                dep_views(entries@).no_duplicates(),
                dep_views(entries@).to_set() == e0.union(dep_views(other.entries@).take(j as int).to_set()),
            decreases other.entries@.len() - j,
        {
            insert_dep(&mut entries, other.entries[j].kind, other.entries[j].ty.as_str());
            proof {
                let o = dep_views(other.entries@);
                assert(o.take(j + 1) =~= o.take(j as int).push(o[j as int]));
                o.take(j as int).lemma_push_to_set_commute(o[j as int]);
                assert(dep_views(entries@).to_set() =~= e0.union(o.take(j + 1).to_set()));
            }
            j = j + 1;
        }
        proof {
            assert(string_seq_views(other.types@).take(other.types@.len() as int) =~= string_seq_views(other.types@));
            assert(dep_views(other.entries@).take(other.entries@.len() as int) =~= dep_views(other.entries@));
        }
        self.types = types;
        self.entries = entries;
    }
}

} // verus!
