//! The metadata file that the export run writes: one line per exported type,
//! `<typescript name>,<rust name>,<export path>`.
use vstd::prelude::*;

use crate::text::{chars_of, str_equal, string_of_range};

verus! {

/// The name of the metadata file in the output directory.
pub const FILE_NAME: &'static str = "ts_rs.meta";

/// Index of the first `c` in `s`, or `s.len()` when there is none.
pub open spec fn find(s: Seq<char>, c: char) -> int
    decreases s.len(),
{
    if s.len() == 0 {
        0
    } else if s[0] == c {
        0
    } else {
        1 + find(s.drop_first(), c)
    }
}

/// `find` is the first index holding `c`, or the length.
pub proof fn lemma_find_is_first(s: Seq<char>, c: char, i: int)
    requires
        0 <= i <= s.len(),
        forall|j: int| 0 <= j < i ==> s[j] != c,
        i < s.len() ==> s[i] == c,
    ensures
        find(s, c) == i,
    decreases i,
{
    if i > 0 {
        lemma_find_is_first(s.drop_first(), c, i - 1);
    }
}

/// `find` lies between 0 and the length.
pub proof fn lemma_find_bounds(s: Seq<char>, c: char)
    ensures
        0 <= find(s, c) <= s.len(),
    decreases s.len(),
{
    if s.len() > 0 && s[0] != c {
        lemma_find_bounds(s.drop_first(), c);
    }
}

/// `s` split around its first `c`, as `str::split_once` does.
pub open spec fn split_once(s: Seq<char>, c: char) -> Option<(Seq<char>, Seq<char>)> {
    let i = find(s, c);
    if 0 <= i < s.len() {
        Some((s.take(i), s.skip(i + 1)))
    } else {
        None
    }
}

/// A line without the `\r` of a `\r\n` ending.
pub open spec fn strip_cr(l: Seq<char>) -> Seq<char> {
    if l.len() > 0 && l.last() == '\r' {
        l.drop_last()
    } else {
        l
    }
}

/// The lines of `s`, as `str::lines` gives them: split at `\n`, a `\r` right
/// before the `\n` dropped, and no empty line after a final `\n`.
pub open spec fn lines(s: Seq<char>) -> Seq<Seq<char>>
    decreases s.len(),
{
    if s.len() == 0 {
        Seq::empty()
    } else {
        let i = find(s, '\n');
        proof {
            lemma_find_bounds(s, '\n');
        }
        if i < s.len() {
            seq![strip_cr(s.take(i))] + lines(s.skip(i + 1))
        } else {
            seq![s]
        }
    }
}

/// Why a metadata file could not be read.
#[derive(Copy, Clone, Debug, PartialEq, Eq, Structural)]
pub enum MetadataError {
    /// A line without a comma after the TypeScript name.
    InvalidFile,
    /// A line without a comma between the Rust name and the path.
    InvalidEntry,
}

impl MetadataError {
    /// The text that reports this error.
    pub fn message(&self) -> (r: &'static str)
        ensures
            r@ == match self {
                MetadataError::InvalidFile => "Invalid metadata file"@,
                MetadataError::InvalidEntry => "Invalid metadata entry"@,
            },
    {
        match self {
            MetadataError::InvalidFile => "Invalid metadata file",
            MetadataError::InvalidEntry => "Invalid metadata entry",
        }
    }
}

/// One line read as (TypeScript name, Rust name, export path).
pub open spec fn parse_line(l: Seq<char>) -> Result<(Seq<char>, Seq<char>, Seq<char>), MetadataError> {
    match split_once(l, ',') {
        None => Err(MetadataError::InvalidFile),
        Some((key, rest)) => match split_once(rest, ',') {
            None => Err(MetadataError::InvalidEntry),
            Some((name, path)) => Ok((key, name, path)),
        },
    }
}

/// All lines read in order; the error is that of the first line that fails.
pub open spec fn parse_lines(ls: Seq<Seq<char>>) -> Result<Seq<(Seq<char>, Seq<char>, Seq<char>)>, MetadataError>
    decreases ls.len(),
{
    if ls.len() == 0 {
        Ok(Seq::empty())
    } else {
        match parse_lines(ls.drop_last()) {
            Err(e) => Err(e),
            Ok(ts) => match parse_line(ls.last()) {
                Err(e) => Err(e),
                Ok(t) => Ok(ts.push(t)),
            },
        }
    }
}

/// The lines grouped by TypeScript name: each name that occurs maps to the set
/// of (Rust name, export path) pairs given for it.
pub open spec fn grouped(ts: Seq<(Seq<char>, Seq<char>, Seq<char>)>) -> Map<
    Seq<char>,
    Set<(Seq<char>, Seq<char>)>,
> {
    Map::new(
        |k: Seq<char>| exists|i: int| 0 <= i < ts.len() && #[trigger] ts[i].0 == k,
        |k: Seq<char>|
            Set::new(
                |e: (Seq<char>, Seq<char>)|
                    exists|i: int| 0 <= i < ts.len() && #[trigger] ts[i] == (k, e.0, e.1),
            ),
    )
}

/// A type exported under some TypeScript name.
pub struct Entry {
    pub rust_name: String,
    pub export_path: String,
}

/// An entry as the pair of its Rust name and its export path.
pub open spec fn entry_view(e: Entry) -> (Seq<char>, Seq<char>) {
    (e.rust_name@, e.export_path@)
}

/// The entries of a list, each as the pair of its Rust name and its export path.
pub open spec fn entries_view(s: Seq<Entry>) -> Seq<(Seq<char>, Seq<char>)> {
    s.map_values(|e: Entry| entry_view(e))
}

/// The types exported under one TypeScript name.
pub struct Group {
    pub ts_name: String,
    pub entries: Vec<Entry>,
}

/// The map that a list of groups stands for.
pub open spec fn groups_map(g: Seq<Group>) -> Map<Seq<char>, Set<(Seq<char>, Seq<char>)>> {
    Map::new(
        |k: Seq<char>| exists|i: int| 0 <= i < g.len() && #[trigger] g[i].ts_name@ == k,
        |k: Seq<char>|
            Set::new(
                |e: (Seq<char>, Seq<char>)|
                    exists|i: int, j: int|
                        0 <= i < g.len() && g[i].ts_name@ == k && 0 <= j < g[i].entries@.len()
                            && #[trigger] entry_view(g[i].entries@[j]) == e,
            ),
    )
}

/// Names differ between groups, entries differ within a group, and no group
/// is empty.
pub open spec fn groups_wf(g: Seq<Group>) -> bool {
    &&& forall|i: int, j: int|
        0 <= i < g.len() && 0 <= j < g.len() && i != j ==> #[trigger] g[i].ts_name@ != #[trigger] g[j].ts_name@
    &&& forall|i: int|
        0 <= i < g.len() ==> (#[trigger] g[i]).entries@.len() > 0 && entries_view(
            g[i].entries@,
        ).no_duplicates()
}

/// The contents of a metadata file, grouped by TypeScript name.
pub struct Metadata {
    groups: Vec<Group>,
}

impl Metadata {
    #[verifier::type_invariant]
    spec fn inv(self) -> bool {
        groups_wf(self.groups@)
    }
}

impl View for Metadata {
    type V = Map<Seq<char>, Set<(Seq<char>, Seq<char>)>>;

    closed spec fn view(&self) -> Self::V {
        groups_map(self.groups@)
    }
}

/// The export paths named anywhere in `m`.
pub open spec fn export_path_set(m: Map<Seq<char>, Set<(Seq<char>, Seq<char>)>>) -> Set<Seq<char>> {
    Set::new(|p: Seq<char>| exists|k: Seq<char>, n: Seq<char>| m.dom().contains(k) && #[trigger] m[k].contains((n, p)))
}

/// The strings of a list, each by its characters.
pub open spec fn string_views(v: Seq<String>) -> Seq<Seq<char>> {
    v.map_values(|s: String| s@)
}

proof fn lemma_parse_err_extends(a: Seq<Seq<char>>, b: Seq<Seq<char>>)
    requires
        parse_lines(a) is Err,
    ensures
        parse_lines(a + b) == parse_lines(a),
    decreases b.len(),
{
    if b.len() == 0 {
        assert(a + b =~= a);
    } else {
        lemma_parse_err_extends(a, b.drop_last());
        assert((a + b).drop_last() =~= a + b.drop_last());
    }
}

/// The first index in `v[from..to]` holding `c`, or `to`.
fn find_in(v: &Vec<char>, c: char, from: usize, to: usize) -> (r: usize)
    requires
        from <= to <= v@.len(),
    ensures
        from <= r <= to,
        find(v@.subrange(from as int, to as int), c) == r - from,
{
    let mut i = from;
    while i < to && v[i] != c
        invariant
            from <= i <= to <= v@.len(),
            forall|j: int| from <= j < i ==> v@[j] != c,
        decreases to - i,
    {
        i = i + 1;
    }
    proof {
        let s = v@.subrange(from as int, to as int);
        lemma_find_is_first(s, c, i - from);
    }
    i
}

fn copy_string(s: &String) -> (r: String)
    ensures
        r@ == s@,
{
    crate::text::string_from(s.as_str())
}

fn copy_entries(v: &Vec<Entry>) -> (r: Vec<Entry>)
    ensures
        entries_view(r@) == entries_view(v@),
{
    let mut r: Vec<Entry> = Vec::new();
    let mut i: usize = 0;
    while i < v.len()
        invariant
            i <= v@.len(),
            entries_view(r@) == entries_view(v@).take(i as int),
        decreases v@.len() - i,
    {
        let e = Entry {
            rust_name: copy_string(&v[i].rust_name),
            export_path: copy_string(&v[i].export_path),
        };
        assert(entry_view(e) == entry_view(v@[i as int]));
        let ghost before = r@;
        r.push(e);
        assert(entries_view(r@) =~= entries_view(before).push(entry_view(e)));
        i = i + 1;
        assert(entries_view(r@) =~= entries_view(v@).take(i as int));
    }
    assert(entries_view(v@).take(v@.len() as int) =~= entries_view(v@));
    r
}

/// `m` with `e` added under the name `k`.
pub open spec fn add_to_map(
    m: Map<Seq<char>, Set<(Seq<char>, Seq<char>)>>,
    k: Seq<char>,
    e: (Seq<char>, Seq<char>),
) -> Map<Seq<char>, Set<(Seq<char>, Seq<char>)>> {
    if m.dom().contains(k) {
        m.insert(k, m[k].insert(e))
    } else {
        m.insert(k, set![e])
    }
}

proof fn lemma_grouped_push(
    ts: Seq<(Seq<char>, Seq<char>, Seq<char>)>,
    t: (Seq<char>, Seq<char>, Seq<char>),
)
    ensures
        grouped(ts.push(t)) == add_to_map(grouped(ts), t.0, (t.1, t.2)),
{
    let a = grouped(ts.push(t));
    let b = add_to_map(grouped(ts), t.0, (t.1, t.2));
    let n = ts.len() as int;
    assert(ts.push(t)[n] == t);
    assert forall|k: Seq<char>| a.dom().contains(k) <==> b.dom().contains(k) by {
        if a.dom().contains(k) {
            let i = choose|i: int| 0 <= i < ts.push(t).len() && #[trigger] ts.push(t)[i].0 == k;
            if i < n {
                assert(ts[i].0 == k);
            }
        }
        if grouped(ts).dom().contains(k) {
            let i = choose|i: int| 0 <= i < ts.len() && #[trigger] ts[i].0 == k;
            assert(ts.push(t)[i].0 == k);
        }
    }
    assert(a.dom() =~= b.dom());
    assert forall|k: Seq<char>| #[trigger] a.dom().contains(k) implies a[k] == b[k] by {
        assert forall|e: (Seq<char>, Seq<char>)| a[k].contains(e) <==> b[k].contains(e) by {
            if a[k].contains(e) {
                let i = choose|i: int| 0 <= i < ts.push(t).len() && #[trigger] ts.push(t)[i] == (k, e.0, e.1);
                if i < n {
                    assert(ts[i] == (k, e.0, e.1));
                    assert(ts[i].0 == k);
                    assert(grouped(ts).dom().contains(k));
                    assert(grouped(ts)[k].contains(e));
                }
            }
            if grouped(ts).dom().contains(k) && grouped(ts)[k].contains(e) {
                let i = choose|i: int| 0 <= i < ts.len() && #[trigger] ts[i] == (k, e.0, e.1);
                assert(ts.push(t)[i] == (k, e.0, e.1));
            }
        }
        assert(a[k] =~= b[k]);
    }
    assert(a =~= b);
}

/// Adds `(name, path)` under `key`, keeping each pair once.
fn add_entry(groups: &mut Vec<Group>, key: String, name: String, path: String)
    requires
        groups_wf(old(groups)@),
    ensures
        groups_wf(final(groups)@),
        groups_map(final(groups)@) == add_to_map(groups_map(old(groups)@), key@, (name@, path@)),
{
    let ghost g0 = groups@;
    let ghost m0 = groups_map(g0);
    let ghost k = key@;
    let ghost e = (name@, path@);
    let n = groups.len();
    let mut i: usize = 0;
    while i < n
        invariant
            groups@ == g0,
            n == g0.len(),
            k == key@,
            i <= n,
            forall|j: int| 0 <= j < i ==> (#[trigger] g0[j]).ts_name@ != k,
        ensures
            i <= n,
            i < n ==> g0[i as int].ts_name@ == k,
            forall|j: int| 0 <= j < i ==> (#[trigger] g0[j]).ts_name@ != k,
        decreases n - i,
    {
        if str_equal(groups[i].ts_name.as_str(), key.as_str()) {
            break;
        }
        i = i + 1;
    }
    if i == n {
        let mut entries: Vec<Entry> = Vec::new();
        entries.push(Entry { rust_name: name, export_path: path });
        groups.push(Group { ts_name: key, entries });
        proof {
            let g1 = groups@;
            let m1 = groups_map(g1);
            let n = g0.len() as int;
            assert(g1[n].ts_name@ == k);
            assert(entries_view(g1[n].entries@) =~= seq![e]);
            assert(!m0.dom().contains(k));
            let target = add_to_map(m0, k, e);
            assert forall|k2: Seq<char>| m1.dom().contains(k2) <==> target.dom().contains(k2) by {
                if m0.dom().contains(k2) {
                    let a = choose|a: int| 0 <= a < g0.len() && #[trigger] g0[a].ts_name@ == k2;
                    assert(g1[a].ts_name@ == k2);
                }
                if m1.dom().contains(k2) && k2 != k {
                    let a = choose|a: int| 0 <= a < g1.len() && #[trigger] g1[a].ts_name@ == k2;
                    assert(g0[a].ts_name@ == k2);
                }
            }
            assert(m1.dom() =~= target.dom());
            assert forall|k2: Seq<char>| #[trigger] m1.dom().contains(k2) implies m1[k2] == target[k2] by {
                assert forall|x: (Seq<char>, Seq<char>)| m1[k2].contains(x) <==> target[k2].contains(x) by {
                    if m1[k2].contains(x) {
                        let (a, b) = choose|a: int, b: int|
                            0 <= a < g1.len() && g1[a].ts_name@ == k2 && 0 <= b < g1[a].entries@.len()
                                && #[trigger] entry_view(g1[a].entries@[b]) == x;
                        if a < n {
                            assert(g0[a] == g1[a]);
                            assert(entry_view(g0[a].entries@[b]) == x);
                        } else {
                            assert(entries_view(g1[n].entries@)[b] == x);
                        }
                    }
                    if k2 != k && m0[k2].contains(x) {
                        let (a, b) = choose|a: int, b: int|
                            0 <= a < g0.len() && g0[a].ts_name@ == k2 && 0 <= b < g0[a].entries@.len()
                                && #[trigger] entry_view(g0[a].entries@[b]) == x;
                        assert(g1[a] == g0[a]);
                        assert(entry_view(g1[a].entries@[b]) == x);
                    }
                    if k2 == k && x == e {
                        assert(entries_view(g1[n].entries@)[0] == e);
                        assert(entry_view(g1[n].entries@[0]) == e);
                    }
                }
                assert(m1[k2] =~= target[k2]);
            }
            assert(m1 =~= target);
        }
    } else {
        let mut j: usize = 0;
        let len = groups[i].entries.len();
        while j < len
            invariant
                groups@ == g0,
                i < g0.len(),
                e == (name@, path@),
                len == g0[i as int].entries@.len(),
                j <= len,
                forall|b: int| 0 <= b < j ==> entry_view(#[trigger] g0[i as int].entries@[b]) != e,
            ensures
                j <= len,
                j < len ==> entry_view(g0[i as int].entries@[j as int]) == e,
                forall|b: int| 0 <= b < j ==> entry_view(#[trigger] g0[i as int].entries@[b]) != e,
            decreases len - j,
        {
            let same_name = str_equal(groups[i].entries[j].rust_name.as_str(), name.as_str());
            let same_path = str_equal(groups[i].entries[j].export_path.as_str(), path.as_str());
            if same_name && same_path {
                break;
            }
            j = j + 1;
        }
        proof {
            assert(g0[i as int].ts_name@ == k);
            assert(m0.dom().contains(k));
        }
        if j == len {
            groups[i].entries.push(Entry { rust_name: name, export_path: path });
        }
        proof {
            let g1 = groups@;
            let m1 = groups_map(g1);
            let ii = i as int;
            let target = add_to_map(m0, k, e);
            assert(forall|a: int| 0 <= a < g1.len() && a != ii ==> g1[a] == g0[a]);
            assert(g1[ii].ts_name@ == k);
            assert(g1.len() == g0.len());
            assert forall|b: int| 0 <= b < g0[ii].entries@.len() implies g1[ii].entries@[b] == g0[ii].entries@[b] by {}
            assert(exists|b: int| 0 <= b < g1[ii].entries@.len() && entry_view(g1[ii].entries@[b]) == e) by {
                if j == len {
                    assert(entry_view(g1[ii].entries@[len as int]) == e);
                } else {
                    assert(entry_view(g1[ii].entries@[j as int]) == e);
                }
            }
            assert forall|a: int| 0 <= a < g1.len() implies (#[trigger] g1[a]).entries@.len() > 0
                && entries_view(g1[a].entries@).no_duplicates() by {
                if a == ii && j == len {
                    let s0 = entries_view(g0[ii].entries@);
                    let s1 = entries_view(g1[ii].entries@);
                    assert(s1 =~= s0.push(e));
                    assert forall|p: int, q: int| 0 <= p < s1.len() && 0 <= q < s1.len() && p != q implies s1[p] != s1[q] by {
                        if p < s0.len() && q < s0.len() {
                        } else if p < s0.len() {
                            assert(entry_view(g0[ii].entries@[p]) != e);
                        } else {
                            assert(entry_view(g0[ii].entries@[q]) != e);
                        }
                    }
                }
            }
            assert forall|k2: Seq<char>| m1.dom().contains(k2) <==> target.dom().contains(k2) by {
                if m0.dom().contains(k2) {
                    let a = choose|a: int| 0 <= a < g0.len() && #[trigger] g0[a].ts_name@ == k2;
                    assert(g1[a].ts_name@ == k2);
                }
                if m1.dom().contains(k2) {
                    let a = choose|a: int| 0 <= a < g1.len() && #[trigger] g1[a].ts_name@ == k2;
                    assert(g0[a].ts_name@ == k2);
                }
            }
            assert(m1.dom() =~= target.dom());
            assert forall|k2: Seq<char>| #[trigger] m1.dom().contains(k2) implies m1[k2] == target[k2] by {
                assert forall|x: (Seq<char>, Seq<char>)| m1[k2].contains(x) <==> target[k2].contains(x) by {
                    if m1[k2].contains(x) {
                        let (a, b) = choose|a: int, b: int|
                            0 <= a < g1.len() && g1[a].ts_name@ == k2 && 0 <= b < g1[a].entries@.len()
                                && #[trigger] entry_view(g1[a].entries@[b]) == x;
                        if a != ii {
                            assert(entry_view(g0[a].entries@[b]) == x);
                        } else if b < g0[ii].entries@.len() {
                            assert(entry_view(g0[ii].entries@[b]) == x);
                        }
                    }
                    if m0[k2].contains(x) {
                        let (a, b) = choose|a: int, b: int|
                            0 <= a < g0.len() && g0[a].ts_name@ == k2 && 0 <= b < g0[a].entries@.len()
                                && #[trigger] entry_view(g0[a].entries@[b]) == x;
                        if a != ii {
                            assert(entry_view(g1[a].entries@[b]) == x);
                        } else {
                            assert(entry_view(g1[ii].entries@[b]) == x);
                        }
                    }
                }
                assert(m1[k2] =~= target[k2]);
            }
            assert(m1 =~= target);
        }
    }
}

/// Where the line that starts at `pos` ends (without its `\r\n` or `\n`) and
/// where the next one starts.
fn next_line(v: &Vec<char>, pos: usize) -> (r: (usize, usize))
    requires
        pos < v@.len(),
    ensures
        pos <= r.0 <= r.1 <= v@.len(),
        pos < r.1,
        lines(v@.skip(pos as int)) == seq![v@.subrange(pos as int, r.0 as int)] + lines(
            v@.skip(r.1 as int),
        ),
{
    let n = v.len();
    let j = find_in(v, '\n', pos, n);
    let ghost rest = v@.skip(pos as int);
    let mut end = j;
    if j < n && j > pos && v[j - 1] == '\r' {
        end = j - 1;
    }
    let next: usize = if j < n {
        j + 1
    } else {
        n
    };
    let ghost line = v@.subrange(pos as int, end as int);
    proof {
        assert(v@.subrange(pos as int, n as int) =~= rest);
        if j < n {
            assert(rest.take(j - pos) =~= v@.subrange(pos as int, j as int));
            if j > pos && v@[j - 1] == '\r' {
                assert(v@.subrange(pos as int, j as int).drop_last() =~= line);
            }
            assert(strip_cr(rest.take(j - pos)) == line);
            assert(rest.skip(j - pos + 1) =~= v@.skip(next as int));
        } else {
            assert(line =~= rest);
            assert(v@.skip(next as int) =~= Seq::<char>::empty());
            assert(lines(rest) =~= seq![line] + lines(v@.skip(next as int)));
        }
    }
    (end, next)
}

/// Reads the line `v[from..to]` into its three fields.
fn read_line(v: &Vec<char>, from: usize, to: usize) -> (r: Result<(String, String, String), MetadataError>)
    requires
        from <= to <= v@.len(),
    ensures
        match parse_line(v@.subrange(from as int, to as int)) {
            Ok(t) => r matches Ok(x) && (x.0@, x.1@, x.2@) == t,
            Err(e) => r matches Err(e2) && e2 == e,
        },
{
    let ghost line = v@.subrange(from as int, to as int);
    let c1 = find_in(v, ',', from, to);
    if c1 == to {
        return Err(MetadataError::InvalidFile);
    }
    let c2 = find_in(v, ',', c1 + 1, to);
    proof {
        assert(line.skip(c1 - from + 1) =~= v@.subrange(c1 + 1, to as int));
        assert(line.take(c1 - from) =~= v@.subrange(from as int, c1 as int));
    }
    if c2 == to {
        return Err(MetadataError::InvalidEntry);
    }
    let key = string_of_range(v, from, c1);
    let name = string_of_range(v, c1 + 1, c2);
    let path = string_of_range(v, c2 + 1, to);
    proof {
        let rest2 = v@.subrange(c1 + 1, to as int);
        assert(rest2.take(c2 - c1 - 1) =~= v@.subrange(c1 + 1, c2 as int));
        assert(rest2.skip(c2 - c1) =~= v@.subrange(c2 + 1, to as int));
    }
    Ok((key, name, path))
}

impl Metadata {
    /// Reads the contents of a metadata file: each line holds a TypeScript
    /// name, a comma, a Rust name, a comma and the export path (which may hold
    /// further commas). The first line that cannot be read decides the error.
    pub fn try_from(value: &str) -> (r: Result<Metadata, MetadataError>)
        ensures
            match parse_lines(lines(value@)) {
                Ok(ts) => r matches Ok(m) && m@ == grouped(ts),
                Err(e) => r matches Err(e2) && e2 == e,
            },
    {
        let v = chars_of(value);
        let n = v.len();
        let mut pos: usize = 0;
        let mut groups: Vec<Group> = Vec::new();
        let ghost mut done: Seq<Seq<char>> = Seq::empty();
        let ghost mut ts: Seq<(Seq<char>, Seq<char>, Seq<char>)> = Seq::empty();
        proof {
            assert(v@.skip(0) =~= v@);
            assert(done + lines(v@) =~= lines(v@));
            assert(groups_map(groups@) =~= grouped(ts));
        }
        while pos < n
            invariant
                v@ == value@,
                n == v@.len(),
                pos <= n,
                lines(v@) == done + lines(v@.skip(pos as int)),
                parse_lines(done) == Ok::<_, MetadataError>(ts),
                groups_wf(groups@),
                groups_map(groups@) == grouped(ts),
            decreases n - pos,
        {
            let (end, next) = next_line(&v, pos);
            let ghost line = v@.subrange(pos as int, end as int);
            proof {
                assert(lines(v@) =~= done.push(line) + lines(v@.skip(next as int)));
                assert(done.push(line).drop_last() =~= done);
            }
            match read_line(&v, pos, end) {
                Err(e) => {
                    proof {
                        lemma_parse_err_extends(done.push(line), lines(v@.skip(next as int)));
                    }
                    return Err(e);
                },
                Ok((key, name, path)) => {
                    let ghost t = (key@, name@, path@);
                    proof {
                        lemma_grouped_push(ts, t);
                    }
                    add_entry(&mut groups, key, name, path);
                    proof {
                        done = done.push(line);
                        ts = ts.push(t);
                    }
                },
            }
            pos = next;
        }
        proof {
            assert(v@.skip(n as int) =~= Seq::<char>::empty());
            assert(done + Seq::<Seq<char>>::empty() =~= done);
        }
        Ok(Metadata { groups })
    }
}

/// With distinct names, the set under a group's name is that group's entries,
/// one per entry.
proof fn lemma_group_set(g: Seq<Group>, i: int)
    requires
        groups_wf(g),
        0 <= i < g.len(),
    ensures
        groups_map(g).dom().contains(g[i].ts_name@),
        groups_map(g)[g[i].ts_name@] == entries_view(g[i].entries@).to_set(),
        groups_map(g)[g[i].ts_name@].len() == g[i].entries@.len(),
{
    let k = g[i].ts_name@;
    let s = entries_view(g[i].entries@);
    assert(groups_map(g).dom().contains(k));
    assert forall|x: (Seq<char>, Seq<char>)| groups_map(g)[k].contains(x) <==> s.to_set().contains(x) by {
        if groups_map(g)[k].contains(x) {
            let (a, b) = choose|a: int, b: int|
                0 <= a < g.len() && g[a].ts_name@ == k && 0 <= b < g[a].entries@.len()
                    && #[trigger] entry_view(g[a].entries@[b]) == x;
            assert(a == i);
            assert(s[b] == x);
        }
        if s.to_set().contains(x) {
            let b = choose|b: int| 0 <= b < s.len() && s[b] == x;
            assert(entry_view(g[i].entries@[b]) == x);
        }
    }
    assert(groups_map(g)[k] =~= s.to_set());
    s.unique_seq_to_set();
}

/// The export paths of all entries, group after group.
pub open spec fn all_paths(g: Seq<Group>) -> Seq<Seq<char>>
    decreases g.len(),
{
    if g.len() == 0 {
        Seq::empty()
    } else {
        all_paths(g.drop_last()) + g.last().entries@.map_values(|e: Entry| e.export_path@)
    }
}

proof fn lemma_all_paths_contains(g: Seq<Group>, p: Seq<char>)
    ensures
        all_paths(g).contains(p) <==> exists|a: int, b: int|
            0 <= a < g.len() && 0 <= b < g[a].entries@.len() && #[trigger] g[a].entries@[b].export_path@
                == p,
    decreases g.len(),
{
    if g.len() > 0 {
        let init = g.drop_last();
        let last = g.last().entries@.map_values(|e: Entry| e.export_path@);
        lemma_all_paths_contains(init, p);
        let all = all_paths(g);
        assert(all =~= all_paths(init) + last);
        if all.contains(p) {
            let x = choose|x: int| 0 <= x < all.len() && all[x] == p;
            if x < all_paths(init).len() {
                assert(all_paths(init)[x] == p);
                let (a, b) = choose|a: int, b: int|
                    0 <= a < init.len() && 0 <= b < init[a].entries@.len()
                        && #[trigger] init[a].entries@[b].export_path@ == p;
                assert(g[a] == init[a]);
            } else {
                let b = x - all_paths(init).len();
                assert(last[b] == p);
                assert(g[g.len() - 1].entries@[b].export_path@ == p);
            }
        }
        if exists|a: int, b: int|
            0 <= a < g.len() && 0 <= b < g[a].entries@.len() && #[trigger] g[a].entries@[b].export_path@
                == p {
            let (a, b) = choose|a: int, b: int|
                0 <= a < g.len() && 0 <= b < g[a].entries@.len() && #[trigger] g[a].entries@[b].export_path@
                    == p;
            if a < g.len() - 1 {
                assert(init[a] == g[a]);
                assert(init[a].entries@[b].export_path@ == p);
                assert(all_paths(init).contains(p));
                let x = choose|x: int| 0 <= x < all_paths(init).len() && all_paths(init)[x] == p;
                assert(all[x] == p);
            } else {
                assert(last[b] == p);
                assert(all[all_paths(init).len() + b] == p);
            }
        }
    }
}

proof fn lemma_all_paths_set(g: Seq<Group>)
    ensures
        all_paths(g).to_set() == export_path_set(groups_map(g)),
{
    let m = groups_map(g);
    assert forall|p: Seq<char>| all_paths(g).to_set().contains(p) <==> export_path_set(m).contains(p) by {
        lemma_all_paths_contains(g, p);
        if all_paths(g).contains(p) {
            let (a, b) = choose|a: int, b: int|
                0 <= a < g.len() && 0 <= b < g[a].entries@.len() && #[trigger] g[a].entries@[b].export_path@ == p;
            let k = g[a].ts_name@;
            let nm = g[a].entries@[b].rust_name@;
            assert(entry_view(g[a].entries@[b]) == (nm, p));
            assert(m.dom().contains(k));
            assert(m[k].contains((nm, p)));
        }
        if export_path_set(m).contains(p) {
            let (k, nm) = choose|k: Seq<char>, nm: Seq<char>| m.dom().contains(k) && #[trigger] m[k].contains((nm, p));
            let (a, b) = choose|a: int, b: int|
                0 <= a < g.len() && g[a].ts_name@ == k && 0 <= b < g[a].entries@.len()
                    && #[trigger] entry_view(g[a].entries@[b]) == (nm, p);
            assert(g[a].entries@[b].export_path@ == p);
        }
    }
    assert(all_paths(g).to_set() =~= export_path_set(m));
}

/// An entry of the group named `k`, as (TypeScript name, Rust name, export path).
pub open spec fn triple_of(k: Seq<char>, e: Entry) -> (Seq<char>, Seq<char>, Seq<char>) {
    (k, e.rust_name@, e.export_path@)
}

/// The entries of all groups, group after group, each as a triple.
pub open spec fn all_triples(g: Seq<Group>) -> Seq<(Seq<char>, Seq<char>, Seq<char>)>
    decreases g.len(),
{
    if g.len() == 0 {
        Seq::empty()
    } else {
        all_triples(g.drop_last()) + g.last().entries@.map_values(
            |e: Entry| triple_of(g.last().ts_name@, e),
        )
    }
}

/// `ts` lists each entry of `m` exactly once, as (TypeScript name, Rust name,
/// export path), in some order.
pub open spec fn lists_entries(
    ts: Seq<(Seq<char>, Seq<char>, Seq<char>)>,
    m: Map<Seq<char>, Set<(Seq<char>, Seq<char>)>>,
) -> bool {
    &&& ts.no_duplicates()
    &&& forall|t: (Seq<char>, Seq<char>, Seq<char>)|
        #[trigger] ts.contains(t) <==> (m.dom().contains(t.0) && m[t.0].contains((t.1, t.2)))
}

proof fn lemma_all_triples_contains(g: Seq<Group>, t: (Seq<char>, Seq<char>, Seq<char>))
    ensures
        all_triples(g).contains(t) <==> exists|a: int, b: int|
            0 <= a < g.len() && 0 <= b < g[a].entries@.len() && #[trigger] triple_of(
                g[a].ts_name@,
                g[a].entries@[b],
            ) == t,
    decreases g.len(),
{
    if g.len() > 0 {
        let init = g.drop_last();
        let last = g.last().entries@.map_values(|e: Entry| triple_of(g.last().ts_name@, e));
        lemma_all_triples_contains(init, t);
        let all = all_triples(g);
        assert(all =~= all_triples(init) + last);
        if all.contains(t) {
            let x = choose|x: int| 0 <= x < all.len() && all[x] == t;
            if x < all_triples(init).len() {
                assert(all_triples(init)[x] == t);
                let (a, b) = choose|a: int, b: int|
                    0 <= a < init.len() && 0 <= b < init[a].entries@.len() && #[trigger] triple_of(
                        init[a].ts_name@,
                        init[a].entries@[b],
                    ) == t;
                assert(g[a] == init[a]);
            } else {
                let b = x - all_triples(init).len();
                assert(last[b] == t);
                assert(triple_of(g[g.len() - 1].ts_name@, g[g.len() - 1].entries@[b]) == t);
            }
        }
        if exists|a: int, b: int|
            0 <= a < g.len() && 0 <= b < g[a].entries@.len() && #[trigger] triple_of(
                g[a].ts_name@,
                g[a].entries@[b],
            ) == t {
            let (a, b) = choose|a: int, b: int|
                0 <= a < g.len() && 0 <= b < g[a].entries@.len() && #[trigger] triple_of(
                    g[a].ts_name@,
                    g[a].entries@[b],
                ) == t;
            if a < g.len() - 1 {
                assert(init[a] == g[a]);
                assert(triple_of(init[a].ts_name@, init[a].entries@[b]) == t);
                assert(all_triples(init).contains(t));
                let x = choose|x: int| 0 <= x < all_triples(init).len() && all_triples(init)[x] == t;
                assert(all[x] == t);
            } else {
                assert(last[b] == t);
                assert(all[all_triples(init).len() + b] == t);
            }
        }
    }
}

proof fn lemma_all_triples_paths(g: Seq<Group>)
    ensures
        all_paths(g) == all_triples(g).map_values(
            |t: (Seq<char>, Seq<char>, Seq<char>)| t.2,
        ),
    decreases g.len(),
{
    if g.len() > 0 {
        lemma_all_triples_paths(g.drop_last());
        let last = g.last().entries@.map_values(|e: Entry| triple_of(g.last().ts_name@, e));
        assert(all_triples(g) == all_triples(g.drop_last()) + last);
        assert(all_triples(g).map_values(|t: (Seq<char>, Seq<char>, Seq<char>)| t.2)
            =~= all_triples(g.drop_last()).map_values(|t: (Seq<char>, Seq<char>, Seq<char>)| t.2)
            + g.last().entries@.map_values(|e: Entry| e.export_path@));
    }
}

proof fn lemma_all_triples_no_duplicates(g: Seq<Group>)
    requires
        groups_wf(g),
    ensures
        all_triples(g).no_duplicates(),
    decreases g.len(),
{
    if g.len() > 0 {
        let init = g.drop_last();
        let gl = g.last();
        assert(groups_wf(init)) by {
            assert forall|i: int| 0 <= i < init.len() implies #[trigger] init[i] == g[i] by {}
        }
        lemma_all_triples_no_duplicates(init);
        let a = all_triples(init);
        let b = gl.entries@.map_values(|e: Entry| triple_of(gl.ts_name@, e));
        assert(all_triples(g) == a + b);
        assert(g[g.len() - 1] == gl);
        assert(entries_view(gl.entries@).no_duplicates());
        let all = a + b;
        assert forall|i: int, j: int| 0 <= i < all.len() && 0 <= j < all.len() && i != j implies all[i]
            != all[j] by {
            if i < a.len() && j < a.len() {
            } else if i >= a.len() && j >= a.len() {
                let x = i - a.len();
                let y = j - a.len();
                assert(entries_view(gl.entries@)[x] != entries_view(gl.entries@)[y]);
                assert(all[i] == b[x]);
                assert(all[j] == b[y]);
            } else {
                let (p, q) = if i < a.len() { (i, j - a.len()) } else { (j, i - a.len()) };
                let t = a[p];
                assert(a.contains(t));
                lemma_all_triples_contains(init, t);
                let (x, y) = choose|x: int, y: int|
                    0 <= x < init.len() && 0 <= y < init[x].entries@.len() && #[trigger] triple_of(
                        init[x].ts_name@,
                        init[x].entries@[y],
                    ) == t;
                assert(init[x] == g[x]);
                assert(g[x].ts_name@ != g[g.len() - 1].ts_name@);
                assert(b[q].0 == gl.ts_name@);
            }
        }
        assert(all.no_duplicates());
    }
}

proof fn lemma_all_triples_list(g: Seq<Group>)
    requires
        groups_wf(g),
    ensures
        lists_entries(all_triples(g), groups_map(g)),
{
    lemma_all_triples_no_duplicates(g);
    let m = groups_map(g);
    assert forall|t: (Seq<char>, Seq<char>, Seq<char>)|
        #[trigger] all_triples(g).contains(t) <==> (m.dom().contains(t.0) && m[t.0].contains((t.1, t.2))) by {
        lemma_all_triples_contains(g, t);
        if all_triples(g).contains(t) {
            let (a, b) = choose|a: int, b: int|
                0 <= a < g.len() && 0 <= b < g[a].entries@.len() && #[trigger] triple_of(
                    g[a].ts_name@,
                    g[a].entries@[b],
                ) == t;
            assert(m.dom().contains(t.0));
            assert(entry_view(g[a].entries@[b]) == (t.1, t.2));
            assert(m[t.0].contains((t.1, t.2)));
        }
        if m.dom().contains(t.0) && m[t.0].contains((t.1, t.2)) {
            let (a, b) = choose|a: int, b: int|
                0 <= a < g.len() && g[a].ts_name@ == t.0 && 0 <= b < g[a].entries@.len()
                    && #[trigger] entry_view(g[a].entries@[b]) == (t.1, t.2);
            assert(triple_of(g[a].ts_name@, g[a].entries@[b]) == t);
        }
    }
}

impl Metadata {
    /// Whether the file named no type at all.
    pub fn is_empty(&self) -> (r: bool)
        ensures
            r == (self@.dom() == Set::<Seq<char>>::empty()),
    {
        proof {
            use_type_invariant(self);
        }
        if self.groups.len() == 0 {
            assert(self@.dom() =~= Set::<Seq<char>>::empty());
            true
        } else {
            assert(self@.dom().contains(self.groups@[0].ts_name@));
            false
        }
    }

    /// Whether some TypeScript name is given to more than one type.
    pub fn has_naming_collisions(&self) -> (r: bool)
        ensures
            r == exists|k: Seq<char>| self@.dom().contains(k) && #[trigger] self@[k].len() > 1,
    {
        proof {
            use_type_invariant(self);
        }
        let n = self.groups.len();
        let mut i: usize = 0;
        while i < n
            invariant
                n == self.groups@.len(),
                groups_wf(self.groups@),
                i <= n,
                forall|a: int| 0 <= a < i ==> (#[trigger] self.groups@[a]).entries@.len() <= 1,
            decreases n - i,
        {
            if self.groups[i].entries.len() > 1 {
                proof {
                    lemma_group_set(self.groups@, i as int);
                    let k = self.groups@[i as int].ts_name@;
                    assert(self@.dom().contains(k) && self@[k].len() > 1);
                }
                return true;
            }
            i = i + 1;
        }
        proof {
            assert forall|k: Seq<char>| self@.dom().contains(k) implies #[trigger] self@[k].len() <= 1 by {
                let a = choose|a: int| 0 <= a < n && #[trigger] self.groups@[a].ts_name@ == k;
                lemma_group_set(self.groups@, a);
            }
        }
        false
    }

    /// The names given to more than one type, each with the types that share
    /// it; printing them is left to the caller.
    pub fn report_naming_collisions(&self) -> (r: Vec<Group>)
        ensures
            forall|a: int|
                0 <= a < r@.len() ==> {
                    let k = (#[trigger] r@[a]).ts_name@;
                    &&& self@.dom().contains(k)
                    &&& self@[k].len() > 1
                    &&& entries_view(r@[a].entries@).to_set() == self@[k]
                    &&& entries_view(r@[a].entries@).no_duplicates()
                },
            forall|k: Seq<char>|
                self@.dom().contains(k) && #[trigger] self@[k].len() > 1 ==> exists|a: int|
                    0 <= a < r@.len() && #[trigger] r@[a].ts_name@ == k,
            forall|a: int, b: int|
                0 <= a < r@.len() && 0 <= b < r@.len() && a != b ==> #[trigger] r@[a].ts_name@
                    != #[trigger] r@[b].ts_name@,
    {
        proof {
            use_type_invariant(self);
        }
        let n = self.groups.len();
        let mut out: Vec<Group> = Vec::new();
        let mut i: usize = 0;
        let ghost g = self.groups@;
        let ghost mut idx: Seq<int> = Seq::empty();
        while i < n
            invariant
                n == g.len(),
                g == self.groups@,
                groups_wf(g),
                i <= n,
                out@.len() == idx.len(),
                forall|a: int|
                    0 <= a < idx.len() ==> 0 <= #[trigger] idx[a] < i && g[idx[a]].entries@.len() > 1
                        && out@[a].ts_name@ == g[idx[a]].ts_name@ && entries_view(out@[a].entries@)
                        == entries_view(g[idx[a]].entries@),
                forall|a: int, b: int| 0 <= a < b < idx.len() ==> #[trigger] idx[a] < #[trigger] idx[b],
                forall|c: int|
                    0 <= c < i && (#[trigger] g[c]).entries@.len() > 1 ==> exists|a: int|
                        0 <= a < idx.len() && #[trigger] idx[a] == c,
            decreases n - i,
        {
            if self.groups[i].entries.len() > 1 {
                let grp = Group {
                    ts_name: copy_string(&self.groups[i].ts_name),
                    entries: copy_entries(&self.groups[i].entries),
                };
                out.push(grp);
                proof {
                    let m = idx.len() as int;
                    let old_idx = idx;
                    idx = idx.push(i as int);
                    assert(idx[m] == i);
                    assert forall|c: int| 0 <= c < i + 1 && (#[trigger] g[c]).entries@.len() > 1 implies exists|a: int|
                        0 <= a < idx.len() && #[trigger] idx[a] == c by {
                        if c < i {
                            let a = choose|a: int| 0 <= a < old_idx.len() && #[trigger] old_idx[a] == c;
                            assert(idx[a] == c);
                        } else {
                            assert(idx[m] == c);
                        }
                    }
                }
            }
            i = i + 1;
        }
        proof {
            assert forall|a: int| 0 <= a < out@.len() implies {
                let k = (#[trigger] out@[a]).ts_name@;
                &&& self@.dom().contains(k)
                &&& self@[k].len() > 1
                &&& entries_view(out@[a].entries@).to_set() == self@[k]
                &&& entries_view(out@[a].entries@).no_duplicates()
            } by {
                lemma_group_set(g, idx[a]);
            }
            assert forall|k: Seq<char>| self@.dom().contains(k) && #[trigger] self@[k].len() > 1 implies exists|a: int|
                0 <= a < out@.len() && #[trigger] out@[a].ts_name@ == k by {
                let c = choose|c: int| 0 <= c < n && #[trigger] g[c].ts_name@ == k;
                lemma_group_set(g, c);
                let a = choose|a: int| 0 <= a < idx.len() && #[trigger] idx[a] == c;
                assert(out@[a].ts_name@ == k);
            }
            assert forall|a: int, b: int| 0 <= a < out@.len() && 0 <= b < out@.len() && a != b implies #[trigger] out@[a].ts_name@
                != #[trigger] out@[b].ts_name@ by {
                if a < b {
                    assert(idx[a] < idx[b]);
                } else {
                    assert(idx[b] < idx[a]);
                }
            }
        }
        out
    }

    /// The export path of every type the file names, one per entry.
    pub fn export_paths(&self) -> (r: Vec<String>)
        ensures
            string_views(r@).to_set() == export_path_set(self@),
            exists|ts: Seq<(Seq<char>, Seq<char>, Seq<char>)>|
                lists_entries(ts, self@) && string_views(r@) == ts.map_values(
                    |t: (Seq<char>, Seq<char>, Seq<char>)| t.2,
                ),
    {
        proof {
            use_type_invariant(self);
        }
        let ghost g = self.groups@;
        let n = self.groups.len();
        let mut out: Vec<String> = Vec::new();
        let mut i: usize = 0;
        while i < n
            invariant
                g == self.groups@,
                n == g.len(),
                i <= n,
                string_views(out@) == all_paths(g.take(i as int)),
            decreases n - i,
        {
            let m = self.groups[i].entries.len();
            let ghost base = out@;
            let ghost ps = g[i as int].entries@.map_values(|e: Entry| e.export_path@);
            let mut j: usize = 0;
            while j < m
                invariant
                    g == self.groups@,
                    n == g.len(),
                    i < n,
                    m == g[i as int].entries@.len(),
                    ps == g[i as int].entries@.map_values(|e: Entry| e.export_path@),
                    j <= m,
                    string_views(out@) == string_views(base) + ps.take(j as int),
                decreases m - j,
            {
                let ghost before = out@;
                out.push(copy_string(&self.groups[i].entries[j].export_path));
                proof {
                    assert(string_views(out@) =~= string_views(before).push(ps[j as int]));
                    assert(ps.take(j + 1) =~= ps.take(j as int).push(ps[j as int]));
                    assert(string_views(out@) =~= string_views(base) + ps.take(j + 1));
                }
                j = j + 1;
            }
            proof {
                assert(ps.take(m as int) =~= ps);
                assert(g.take(i + 1).drop_last() =~= g.take(i as int));
                assert(all_paths(g.take(i + 1)) == all_paths(g.take(i as int)) + ps);
            }
            i = i + 1;
        }
        proof {
            assert(g.take(n as int) =~= g);
            lemma_all_paths_set(g);
            lemma_all_triples_paths(g);
            lemma_all_triples_list(g);
            assert(lists_entries(all_triples(g), self@));
        }
        out
    }
}

/// A line repeated in the file changes nothing: each type is kept once.
pub proof fn lemma_repeated_line_changes_nothing(
    ts: Seq<(Seq<char>, Seq<char>, Seq<char>)>,
    t: (Seq<char>, Seq<char>, Seq<char>),
)
    requires
        ts.contains(t),
    ensures
        grouped(ts.push(t)) == grouped(ts),
{
    lemma_grouped_push(ts, t);
    let i = choose|i: int| 0 <= i < ts.len() && ts[i] == t;
    assert(ts[i].0 == t.0);
    assert(grouped(ts).dom().contains(t.0));
    assert(grouped(ts)[t.0].contains((t.1, t.2)));
    assert(grouped(ts)[t.0].insert((t.1, t.2)) =~= grouped(ts)[t.0]);
    assert(grouped(ts).insert(t.0, grouped(ts)[t.0]) =~= grouped(ts));
}

/// The order of the lines does not matter: files with the same lines, in any
/// order and repeated any number of times, are read the same.
pub proof fn lemma_grouped_order_free(
    ts1: Seq<(Seq<char>, Seq<char>, Seq<char>)>,
    ts2: Seq<(Seq<char>, Seq<char>, Seq<char>)>,
)
    requires
        ts1.to_set() == ts2.to_set(),
    ensures
        grouped(ts1) == grouped(ts2),
{
    let a = grouped(ts1);
    let b = grouped(ts2);
    assert forall|k: Seq<char>| a.dom().contains(k) <==> b.dom().contains(k) by {
        if a.dom().contains(k) {
            let i = choose|i: int| 0 <= i < ts1.len() && #[trigger] ts1[i].0 == k;
            assert(ts1.to_set().contains(ts1[i]));
            let j = choose|j: int| 0 <= j < ts2.len() && ts2[j] == ts1[i];
            assert(ts2[j].0 == k);
        }
        if b.dom().contains(k) {
            let j = choose|j: int| 0 <= j < ts2.len() && #[trigger] ts2[j].0 == k;
            assert(ts2.to_set().contains(ts2[j]));
            let i = choose|i: int| 0 <= i < ts1.len() && ts1[i] == ts2[j];
            assert(ts1[i].0 == k);
        }
    }
    assert(a.dom() =~= b.dom());
    assert forall|k: Seq<char>| #[trigger] a.dom().contains(k) implies a[k] == b[k] by {
        assert forall|e: (Seq<char>, Seq<char>)| a[k].contains(e) <==> b[k].contains(e) by {
            if a[k].contains(e) {
                let i = choose|i: int| 0 <= i < ts1.len() && #[trigger] ts1[i] == (k, e.0, e.1);
                assert(ts1.to_set().contains(ts1[i]));
                let j = choose|j: int| 0 <= j < ts2.len() && ts2[j] == ts1[i];
                assert(ts2[j] == (k, e.0, e.1));
            }
            if b[k].contains(e) {
                let j = choose|j: int| 0 <= j < ts2.len() && #[trigger] ts2[j] == (k, e.0, e.1);
                assert(ts2.to_set().contains(ts2[j]));
                let i = choose|i: int| 0 <= i < ts1.len() && ts1[i] == ts2[j];
                assert(ts1[i] == (k, e.0, e.1));
            }
        }
        assert(a[k] =~= b[k]);
    }
    assert(a =~= b);
}

/// An empty file names no type.
pub proof fn lemma_empty_file_names_nothing()
    ensures
        lines(Seq::<char>::empty()) == Seq::<Seq<char>>::empty(),
        parse_lines(Seq::<Seq<char>>::empty()) == Ok::<_, MetadataError>(
            Seq::<(Seq<char>, Seq<char>, Seq<char>)>::empty(),
        ),
        grouped(Seq::<(Seq<char>, Seq<char>, Seq<char>)>::empty()).dom() == Set::<Seq<char>>::empty(),
{
    assert(grouped(Seq::<(Seq<char>, Seq<char>, Seq<char>)>::empty()).dom() =~= Set::<Seq<char>>::empty());
}

/// The set under each name is finite: it holds only pairs from the lines.
proof fn lemma_grouped_finite(ts: Seq<(Seq<char>, Seq<char>, Seq<char>)>, k: Seq<char>)
    requires
        grouped(ts).dom().contains(k),
    ensures
        grouped(ts)[k].finite(),
{
    let pairs = ts.map_values(|t: (Seq<char>, Seq<char>, Seq<char>)| (t.1, t.2)).to_set();
    assert(grouped(ts)[k].subset_of(pairs)) by {
        assert forall|e: (Seq<char>, Seq<char>)| grouped(ts)[k].contains(e) implies pairs.contains(e) by {
            let i = choose|i: int| 0 <= i < ts.len() && #[trigger] ts[i] == (k, e.0, e.1);
            let m = ts.map_values(|t: (Seq<char>, Seq<char>, Seq<char>)| (t.1, t.2));
            assert(m[i] == e);
        }
    }
    vstd::set_lib::lemma_set_subset_finite(pairs, grouped(ts)[k]);
}

/// A name collides exactly when two lines give it to different types (a
/// different Rust name or path).
pub proof fn lemma_collision_iff_two_types(ts: Seq<(Seq<char>, Seq<char>, Seq<char>)>, k: Seq<char>)
    ensures
        (grouped(ts).dom().contains(k) && grouped(ts)[k].len() > 1) <==> exists|i: int, j: int|
            0 <= i < ts.len() && 0 <= j < ts.len() && #[trigger] ts[i].0 == k && #[trigger] ts[j].0 == k
                && (ts[i].1, ts[i].2) != (ts[j].1, ts[j].2),
{
    let m = grouped(ts);
    if m.dom().contains(k) && m[k].len() > 1 {
        lemma_grouped_finite(ts, k);
        let s = m[k];
        let e1 = s.choose();
        assert(s.contains(e1)) by {
            vstd::set_lib::lemma_set_empty_equivalency_len(s);
        }
        let s2 = s.remove(e1);
        assert(s2.len() > 0);
        let e2 = s2.choose();
        assert(s2.contains(e2)) by {
            vstd::set_lib::lemma_set_empty_equivalency_len(s2);
        }
        let i = choose|i: int| 0 <= i < ts.len() && #[trigger] ts[i] == (k, e1.0, e1.1);
        let j = choose|j: int| 0 <= j < ts.len() && #[trigger] ts[j] == (k, e2.0, e2.1);
        assert(ts[i].0 == k && ts[j].0 == k && (ts[i].1, ts[i].2) != (ts[j].1, ts[j].2));
    }
    if exists|i: int, j: int|
        0 <= i < ts.len() && 0 <= j < ts.len() && #[trigger] ts[i].0 == k && #[trigger] ts[j].0 == k
            && (ts[i].1, ts[i].2) != (ts[j].1, ts[j].2) {
        let (i, j) = choose|i: int, j: int|
            0 <= i < ts.len() && 0 <= j < ts.len() && #[trigger] ts[i].0 == k && #[trigger] ts[j].0 == k
                && (ts[i].1, ts[i].2) != (ts[j].1, ts[j].2);
        assert(m.dom().contains(k));
        lemma_grouped_finite(ts, k);
        let e1 = (ts[i].1, ts[i].2);
        let e2 = (ts[j].1, ts[j].2);
        assert(ts[i] == (k, e1.0, e1.1));
        assert(ts[j] == (k, e2.0, e2.1));
        assert(m[k].contains(e1));
        assert(m[k].contains(e2));
        let pair = Set::empty().insert(e1).insert(e2);
        assert(pair.subset_of(m[k]));
        vstd::set_lib::lemma_len_subset(pair, m[k]);
        assert(pair.len() == 2) by {
            assert(Set::empty().insert(e1).len() == 1);
        }
    }
}

proof fn lemma_parse_lines_ok(ls: Seq<Seq<char>>)
    requires
        parse_lines(ls) is Ok,
    ensures
        parse_lines(ls)->Ok_0.len() == ls.len(),
        forall|i: int| 0 <= i < ls.len() ==> parse_line(#[trigger] ls[i]) == Ok::<_, MetadataError>(
            parse_lines(ls)->Ok_0[i],
        ),
    decreases ls.len(),
{
    if ls.len() > 0 {
        lemma_parse_lines_ok(ls.drop_last());
        let ts = parse_lines(ls)->Ok_0;
        assert forall|i: int| 0 <= i < ls.len() implies parse_line(#[trigger] ls[i]) == Ok::<_, MetadataError>(
            ts[i],
        ) by {
            if i < ls.len() - 1 {
                assert(ls.drop_last()[i] == ls[i]);
            }
        }
    }
}

proof fn lemma_lines_nonempty(s: Seq<char>)
    requires
        s.len() > 0,
    ensures
        lines(s).len() > 0,
{
    lemma_find_bounds(s, '\n');
}

/// A file names no type exactly when it is empty (a file that is not empty
/// holds a line, and every line read names a type).
pub proof fn lemma_empty_iff_no_text(s: Seq<char>)
    requires
        parse_lines(lines(s)) is Ok,
    ensures
        grouped(parse_lines(lines(s))->Ok_0).dom() == Set::<Seq<char>>::empty() <==> s.len() == 0,
{
    let ts = parse_lines(lines(s))->Ok_0;
    lemma_parse_lines_ok(lines(s));
    if s.len() == 0 {
        lemma_empty_file_names_nothing();
    } else {
        lemma_lines_nonempty(s);
        assert(grouped(ts).dom().contains(ts[0].0));
    }
}

/// The TypeScript name that a line gives (for a line that can be read).
pub open spec fn line_key(l: Seq<char>) -> Seq<char> {
    parse_line(l)->Ok_0.0
}

/// The (Rust name, export path) that a line gives (for a line that can be read).
pub open spec fn line_type(l: Seq<char>) -> (Seq<char>, Seq<char>) {
    (parse_line(l)->Ok_0.1, parse_line(l)->Ok_0.2)
}

/// A name collides in a file exactly when two of its lines give that name
/// to different types (a different Rust name or export path); the same line
/// written twice is no collision.
pub proof fn lemma_file_collision_iff_two_lines(s: Seq<char>, k: Seq<char>)
    requires
        parse_lines(lines(s)) is Ok,
    ensures
        ({
            let m = grouped(parse_lines(lines(s))->Ok_0);
            m.dom().contains(k) && m[k].len() > 1
        }) <==> exists|i: int, j: int|
            0 <= i < lines(s).len() && 0 <= j < lines(s).len() && line_key(#[trigger] lines(s)[i]) == k
                && line_key(#[trigger] lines(s)[j]) == k && line_type(lines(s)[i]) != line_type(lines(s)[j]),
{
    let ls = lines(s);
    let ts = parse_lines(ls)->Ok_0;
    lemma_parse_lines_ok(ls);
    lemma_collision_iff_two_types(ts, k);
    if exists|i: int, j: int|
        0 <= i < ts.len() && 0 <= j < ts.len() && #[trigger] ts[i].0 == k && #[trigger] ts[j].0 == k
            && (ts[i].1, ts[i].2) != (ts[j].1, ts[j].2) {
        let (i, j) = choose|i: int, j: int|
            0 <= i < ts.len() && 0 <= j < ts.len() && #[trigger] ts[i].0 == k && #[trigger] ts[j].0 == k
                && (ts[i].1, ts[i].2) != (ts[j].1, ts[j].2);
        assert(parse_line(ls[i]) == Ok::<_, MetadataError>(ts[i]));
        assert(parse_line(ls[j]) == Ok::<_, MetadataError>(ts[j]));
        assert(line_key(ls[i]) == k && line_key(ls[j]) == k);
    }
    if exists|i: int, j: int|
        0 <= i < ls.len() && 0 <= j < ls.len() && line_key(#[trigger] ls[i]) == k
            && line_key(#[trigger] ls[j]) == k && line_type(ls[i]) != line_type(ls[j]) {
        let (i, j) = choose|i: int, j: int|
            0 <= i < ls.len() && 0 <= j < ls.len() && line_key(#[trigger] ls[i]) == k
                && line_key(#[trigger] ls[j]) == k && line_type(ls[i]) != line_type(ls[j]);
        assert(parse_line(ls[i]) == Ok::<_, MetadataError>(ts[i]));
        assert(parse_line(ls[j]) == Ok::<_, MetadataError>(ts[j]));
        assert(ts[i].0 == k && ts[j].0 == k);
    }
}

/// The export paths of a file read without error number its distinct lines
/// (a line written twice counts once): a listing of the entries of the
/// file's map, as `export_paths` gives one path for each, holds exactly the
/// (TypeScript name, Rust name, path) triples of the lines, once each.
pub proof fn lemma_entries_are_distinct_lines(
    ts: Seq<(Seq<char>, Seq<char>, Seq<char>)>,
    listed: Seq<(Seq<char>, Seq<char>, Seq<char>)>,
)
    requires
        lists_entries(listed, grouped(ts)),
    ensures
        listed.to_set() == ts.to_set(),
        listed.len() == ts.to_set().len(),
{
    let m = grouped(ts);
    assert forall|t: (Seq<char>, Seq<char>, Seq<char>)| listed.to_set().contains(t) <==> ts.to_set().contains(t) by {
        assert(listed.contains(t) <==> (m.dom().contains(t.0) && m[t.0].contains((t.1, t.2))));
        if ts.contains(t) {
            let i = choose|i: int| 0 <= i < ts.len() && ts[i] == t;
            assert(ts[i].0 == t.0);
            assert(m.dom().contains(t.0));
            assert(ts[i] == (t.0, t.1, t.2));
            assert(m[t.0].contains((t.1, t.2)));
        }
        if m.dom().contains(t.0) && m[t.0].contains((t.1, t.2)) {
            let i = choose|i: int| 0 <= i < ts.len() && #[trigger] ts[i] == (t.0, t.1, t.2);
            assert(ts[i] == t);
        }
    }
    assert(listed.to_set() =~= ts.to_set());
    listed.unique_seq_to_set();
}

} // verus!
