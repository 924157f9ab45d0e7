//! Rust types as trees, as far as the derive looks into them: `_` in an
//! `as = ".."` type is replaced by the field's type, and the type parameters
//! that dependencies use are found for the `where` clause.
//!
//! Names and any text that is carried through unchanged (an array length, a
//! lifetime, a type the derive does not look into) are held by number: equal
//! numbers stand for equal texts.
use vstd::prelude::*;

verus! {

/// A Rust type.
pub enum TypeTree {
    /// `_`.
    Infer,
    /// `[T; N]`, with the text of `N`.
    Array(Box<TypeTree>, u64),
    /// A type in an invisible group.
    Group(Box<TypeTree>),
    /// `(T)`.
    Paren(Box<TypeTree>),
    /// `*const T` or `*mut T` (`true` for `mut`).
    Ptr(Box<TypeTree>, bool),
    /// `&'a T` or `&'a mut T`, with the lifetime if written.
    Reference(Box<TypeTree>, Option<u64>, bool),
    /// `[T]`.
    Slice(Box<TypeTree>),
    /// `(A, B, ..)`.
    Tuple(TypeList),
    /// A path: the qualified self type and its position, whether it starts
    /// with `::`, the segments before the last, and the last one.
    Path(Option<(Box<TypeTree>, u64)>, bool, SegmentList, Box<Segment>),
    /// Any other type, by its text.
    Other(u64),
}

/// Types in order.
pub enum TypeList {
    Nil,
    Cons(Box<TypeTree>, Box<TypeList>),
}

/// One segment of a path: a name and its arguments.
pub struct Segment {
    pub ident: u64,
    pub args: PathArgs,
}

/// Path segments in order.
pub enum SegmentList {
    Nil,
    Cons(Box<Segment>, Box<SegmentList>),
}

/// The arguments of a path segment.
pub enum PathArgs {
    Bare,
    /// `<..>`, with whether `::` comes before it.
    Angle(bool, ArgList),
    /// `(A, B) -> C`.
    Paren(TypeList, Option<Box<TypeTree>>),
}

/// Generic arguments in order.
pub enum ArgList {
    Nil,
    Cons(Box<GenericArg>, Box<ArgList>),
}

/// One generic argument.
pub enum GenericArg {
    Type(Box<TypeTree>),
    /// `Name<..> = T`: the name, its own arguments if any, and the type.
    AssocType(u64, Option<(bool, ArgList)>, Box<TypeTree>),
    /// A lifetime, a const, a constraint, .. by its text.
    Other(u64),
}

// ------------------------------------------------------------ replacing `_`

/// `t` with every `_` that the derive reaches replaced by `w`: inside
/// arrays, groups, parentheses, pointers, references, slices and tuples,
/// and in a path's qualified self type, its type arguments (associated types
/// and their own arguments included) and its `(..) -> ..` arguments.
pub open spec fn replace_infer(t: TypeTree, w: TypeTree) -> TypeTree
    decreases t,
{
    match t {
        TypeTree::Infer => w,
        TypeTree::Array(e, n) => TypeTree::Array(Box::new(replace_infer(*e, w)), n),
        TypeTree::Group(e) => TypeTree::Group(Box::new(replace_infer(*e, w))),
        TypeTree::Paren(e) => TypeTree::Paren(Box::new(replace_infer(*e, w))),
        TypeTree::Ptr(e, m) => TypeTree::Ptr(Box::new(replace_infer(*e, w)), m),
        TypeTree::Reference(e, l, m) => TypeTree::Reference(Box::new(replace_infer(*e, w)), l, m),
        TypeTree::Slice(e) => TypeTree::Slice(Box::new(replace_infer(*e, w))),
        TypeTree::Tuple(l) => TypeTree::Tuple(replace_in_list(l, w)),
        TypeTree::Path(q, lc, init, last) => TypeTree::Path(
            match q {
                Some((qt, pos)) => Some((Box::new(replace_infer(*qt, w)), pos)),
                None => None,
            },
            lc,
            replace_in_segments(init, w),
            Box::new(replace_in_segment(*last, w)),
        ),
        TypeTree::Other(x) => TypeTree::Other(x),
    }
}

/// Every element of a list with each `_` in it replaced by `w`.
pub open spec fn replace_in_list(l: TypeList, w: TypeTree) -> TypeList
    decreases l,
{
    match l {
        TypeList::Nil => TypeList::Nil,
        TypeList::Cons(h, tl) => TypeList::Cons(
            Box::new(replace_infer(*h, w)),
            Box::new(replace_in_list(*tl, w)),
        ),
    }
}

/// A path segment with each `_` in its arguments replaced by `w`.
pub open spec fn replace_in_segment(s: Segment, w: TypeTree) -> Segment
    decreases s,
{
    Segment { ident: s.ident, args: replace_in_args(s.args, w) }
}

/// A path segment with each `_` in its arguments replaced by `w`.
/// Path segments with each `_` in their arguments replaced by `w`.
pub open spec fn replace_in_segments(l: SegmentList, w: TypeTree) -> SegmentList
    decreases l,
{
    match l {
        SegmentList::Nil => SegmentList::Nil,
        SegmentList::Cons(h, tl) => SegmentList::Cons(
            Box::new(replace_in_segment(*h, w)),
            Box::new(replace_in_segments(*tl, w)),
        ),
    }
}

/// Path arguments with each `_` in them replaced by `w`.
pub open spec fn replace_in_args(a: PathArgs, w: TypeTree) -> PathArgs
    decreases a,
{
    match a {
        PathArgs::Bare => PathArgs::Bare,
        PathArgs::Angle(c, args) => PathArgs::Angle(c, replace_in_arg_list(args, w)),
        PathArgs::Paren(inputs, out) => PathArgs::Paren(
            replace_in_list(inputs, w),
            match out {
                Some(o) => Some(Box::new(replace_infer(*o, w))),
                None => None,
            },
        ),
    }
}

/// Generic arguments with each `_` in them replaced by `w`.
pub open spec fn replace_in_arg_list(l: ArgList, w: TypeTree) -> ArgList
    decreases l,
{
    match l {
        ArgList::Nil => ArgList::Nil,
        ArgList::Cons(h, tl) => ArgList::Cons(
            Box::new(replace_in_arg(*h, w)),
            Box::new(replace_in_arg_list(*tl, w)),
        ),
    }
}

/// A generic argument with each `_` in it replaced by `w`.
pub open spec fn replace_in_arg(g: GenericArg, w: TypeTree) -> GenericArg
    decreases g,
{
    match g {
        GenericArg::Type(t) => GenericArg::Type(Box::new(replace_infer(*t, w))),
        GenericArg::AssocType(id, gens, t) => GenericArg::AssocType(
            id,
            match gens {
                Some((c, args)) => Some((c, replace_in_arg_list(args, w))),
                None => None,
            },
            Box::new(replace_infer(*t, w)),
        ),
        GenericArg::Other(x) => GenericArg::Other(x),
    }
}

// ------------------------------------------------------------------ copies

/// A copy of the type.
pub fn copy_tree(t: &TypeTree) -> (r: TypeTree)
    ensures
        r == *t,
    decreases t,
{
    match t {
        TypeTree::Infer => TypeTree::Infer,
        TypeTree::Array(e, n) => TypeTree::Array(Box::new(copy_tree(e)), *n),
        TypeTree::Group(e) => TypeTree::Group(Box::new(copy_tree(e))),
        TypeTree::Paren(e) => TypeTree::Paren(Box::new(copy_tree(e))),
        TypeTree::Ptr(e, m) => TypeTree::Ptr(Box::new(copy_tree(e)), *m),
        TypeTree::Reference(e, l, m) => TypeTree::Reference(Box::new(copy_tree(e)), *l, *m),
        TypeTree::Slice(e) => TypeTree::Slice(Box::new(copy_tree(e))),
        TypeTree::Tuple(l) => TypeTree::Tuple(copy_list(l)),
        TypeTree::Path(q, lc, init, last) => {
            let q2 = match q {
                Some((qt, pos)) => Some((Box::new(copy_tree(qt)), *pos)),
                None => None,
            };
            TypeTree::Path(q2, *lc, copy_segments(init), Box::new(copy_segment(last)))
        },
        TypeTree::Other(x) => TypeTree::Other(*x),
    }
}

fn copy_list(l: &TypeList) -> (r: TypeList)
    ensures
        r == *l,
    decreases l,
{
    match l {
        TypeList::Nil => TypeList::Nil,
        TypeList::Cons(h, tl) => TypeList::Cons(Box::new(copy_tree(h)), Box::new(copy_list(tl))),
    }
}

fn copy_segment(s: &Segment) -> (r: Segment)
    ensures
        r == *s,
    decreases s,
{
    Segment { ident: s.ident, args: copy_args(&s.args) }
}

fn copy_segments(l: &SegmentList) -> (r: SegmentList)
    ensures
        r == *l,
    decreases l,
{
    match l {
        SegmentList::Nil => SegmentList::Nil,
        SegmentList::Cons(h, tl) => SegmentList::Cons(
            Box::new(copy_segment(h)),
            Box::new(copy_segments(tl)),
        ),
    }
}

fn copy_args(a: &PathArgs) -> (r: PathArgs)
    ensures
        r == *a,
    decreases a,
{
    match a {
        PathArgs::Bare => PathArgs::Bare,
        PathArgs::Angle(c, args) => PathArgs::Angle(*c, copy_arg_list(args)),
        PathArgs::Paren(inputs, out) => {
            let o = match out {
                Some(o) => Some(Box::new(copy_tree(o))),
                None => None,
            };
            PathArgs::Paren(copy_list(inputs), o)
        },
    }
}

fn copy_arg_list(l: &ArgList) -> (r: ArgList)
    ensures
        r == *l,
    decreases l,
{
    match l {
        ArgList::Nil => ArgList::Nil,
        ArgList::Cons(h, tl) => ArgList::Cons(Box::new(copy_arg(h)), Box::new(copy_arg_list(tl))),
    }
}

fn copy_arg(g: &GenericArg) -> (r: GenericArg)
    ensures
        r == *g,
    decreases g,
{
    match g {
        GenericArg::Type(t) => GenericArg::Type(Box::new(copy_tree(t))),
        GenericArg::AssocType(id, gens, t) => {
            let g2 = match gens {
                Some((c, args)) => Some((*c, copy_arg_list(args))),
                None => None,
            };
            GenericArg::AssocType(*id, g2, Box::new(copy_tree(t)))
        },
        GenericArg::Other(x) => GenericArg::Other(*x),
    }
}

// ------------------------------------------------------- replacing, in code

/// Replaces every `_` that the derive reaches in `t` by a copy of `w`.
pub fn replace_underscore(t: TypeTree, w: &TypeTree) -> (r: TypeTree)
    ensures
        r == replace_infer(t, *w),
    decreases t,
{
    match t {
        TypeTree::Infer => copy_tree(w),
        TypeTree::Array(e, n) => TypeTree::Array(Box::new(replace_underscore(*e, w)), n),
        TypeTree::Group(e) => TypeTree::Group(Box::new(replace_underscore(*e, w))),
        TypeTree::Paren(e) => TypeTree::Paren(Box::new(replace_underscore(*e, w))),
        TypeTree::Ptr(e, m) => TypeTree::Ptr(Box::new(replace_underscore(*e, w)), m),
        TypeTree::Reference(e, l, m) => TypeTree::Reference(Box::new(replace_underscore(*e, w)), l, m),
        TypeTree::Slice(e) => TypeTree::Slice(Box::new(replace_underscore(*e, w))),
        TypeTree::Tuple(l) => TypeTree::Tuple(replace_list(l, w)),
        TypeTree::Path(q, lc, init, last) => {
            let q2 = match q {
                Some((qt, pos)) => Some((Box::new(replace_underscore(*qt, w)), pos)),
                None => None,
            };
            TypeTree::Path(q2, lc, replace_segments(init, w), Box::new(replace_segment(*last, w)))
        },
        TypeTree::Other(x) => TypeTree::Other(x),
    }
}

fn replace_list(l: TypeList, w: &TypeTree) -> (r: TypeList)
    ensures
        r == replace_in_list(l, *w),
    decreases l,
{
    match l {
        TypeList::Nil => TypeList::Nil,
        TypeList::Cons(h, tl) => TypeList::Cons(
            Box::new(replace_underscore(*h, w)),
            Box::new(replace_list(*tl, w)),
        ),
    }
}

fn replace_segment(s: Segment, w: &TypeTree) -> (r: Segment)
    ensures
        r == replace_in_segment(s, *w),
    decreases s,
{
    Segment { ident: s.ident, args: replace_args(s.args, w) }
}

fn replace_segments(l: SegmentList, w: &TypeTree) -> (r: SegmentList)
    ensures
        r == replace_in_segments(l, *w),
    decreases l,
{
    match l {
        SegmentList::Nil => SegmentList::Nil,
        SegmentList::Cons(h, tl) => SegmentList::Cons(
            Box::new(replace_segment(*h, w)),
            Box::new(replace_segments(*tl, w)),
        ),
    }
}

fn replace_args(a: PathArgs, w: &TypeTree) -> (r: PathArgs)
    ensures
        r == replace_in_args(a, *w),
    decreases a,
{
    match a {
        PathArgs::Bare => PathArgs::Bare,
        PathArgs::Angle(c, args) => PathArgs::Angle(c, replace_arg_list(args, w)),
        PathArgs::Paren(inputs, out) => {
            let o = match out {
                Some(o) => Some(Box::new(replace_underscore(*o, w))),
                None => None,
            };
            PathArgs::Paren(replace_list(inputs, w), o)
        },
    }
}

fn replace_arg_list(l: ArgList, w: &TypeTree) -> (r: ArgList)
    ensures
        r == replace_in_arg_list(l, *w),
    decreases l,
{
    match l {
        ArgList::Nil => ArgList::Nil,
        ArgList::Cons(h, tl) => ArgList::Cons(
            Box::new(replace_arg(*h, w)),
            Box::new(replace_arg_list(*tl, w)),
        ),
    }
}

fn replace_arg(g: GenericArg, w: &TypeTree) -> (r: GenericArg)
    ensures
        r == replace_in_arg(g, *w),
    decreases g,
{
    match g {
        GenericArg::Type(t) => GenericArg::Type(Box::new(replace_underscore(*t, w))),
        GenericArg::AssocType(id, gens, t) => {
            let g2 = match gens {
                Some((c, args)) => Some((c, replace_arg_list(args, w))),
                None => None,
            };
            GenericArg::AssocType(id, g2, Box::new(replace_underscore(*t, w)))
        },
        GenericArg::Other(x) => GenericArg::Other(x),
    }
}

/// The type of a field as the derive sees it: its `as = ".."` type with `_`
/// replaced by the field's own type, else the field's own type.
pub fn type_as(given: Option<TypeTree>, own: &TypeTree) -> (r: TypeTree)
    ensures
        r == match given {
            Some(t) => replace_infer(t, *own),
            None => *own,
        },
{
    match given {
        Some(t) => replace_underscore(t, own),
        None => copy_tree(own),
    }
}

// ------------------------------------------------ type parameters in use

/// The name of a path's first segment.
pub open spec fn first_ident(init: SegmentList, last: Segment) -> u64 {
    match init {
        SegmentList::Nil => last.ident,
        SegmentList::Cons(h, _) => h.ident,
    }
}

/// The types within `t` that are one of the type parameters `params`, or
/// start with one (an associated type such as `I::Item`): found inside
/// arrays, parentheses, references, slices and tuples, and in the type
/// arguments of a path's last segment. A path that starts with a parameter
/// is taken whole.
pub open spec fn used_params(t: TypeTree, params: Set<u64>) -> Set<TypeTree>
    decreases t,
{
    match t {
        TypeTree::Array(e, _) => used_params(*e, params),
        TypeTree::Paren(e) => used_params(*e, params),
        TypeTree::Reference(e, _, _) => used_params(*e, params),
        TypeTree::Slice(e) => used_params(*e, params),
        TypeTree::Tuple(l) => used_params_in_list(l, params),
        TypeTree::Path(None, _, init, last) => if params.contains(first_ident(init, *last)) {
            set![t]
        } else {
            match last.args {
                PathArgs::Angle(_, args) => used_params_in_args(args, params),
                _ => Set::empty(),
            }
        },
        _ => Set::empty(),
    }
}

/// The type parameters among `params` that the types of a list use.
pub open spec fn used_params_in_list(l: TypeList, params: Set<u64>) -> Set<TypeTree>
    decreases l,
{
    match l {
        TypeList::Nil => Set::empty(),
        TypeList::Cons(h, tl) => used_params(*h, params).union(used_params_in_list(*tl, params)),
    }
}

/// The type parameters among `params` that generic arguments use.
pub open spec fn used_params_in_args(l: ArgList, params: Set<u64>) -> Set<TypeTree>
    decreases l,
{
    match l {
        ArgList::Nil => Set::empty(),
        ArgList::Cons(h, tl) => match *h {
            GenericArg::Type(ty) => used_params(*ty, params),
            _ => Set::empty(),
        }.union(used_params_in_args(*tl, params)),
    }
}

/// Structural equality of two types.
pub fn same_tree(a: &TypeTree, b: &TypeTree) -> (r: bool)
    ensures
        r == (*a == *b),
    decreases a,
{
    match (a, b) {
        (TypeTree::Infer, TypeTree::Infer) => true,
        (TypeTree::Array(x, n), TypeTree::Array(y, m)) => *n == *m && same_tree(x, y),
        (TypeTree::Group(x), TypeTree::Group(y)) => same_tree(x, y),
        (TypeTree::Paren(x), TypeTree::Paren(y)) => same_tree(x, y),
        (TypeTree::Ptr(x, m1), TypeTree::Ptr(y, m2)) => *m1 == *m2 && same_tree(x, y),
        (TypeTree::Reference(x, l1, m1), TypeTree::Reference(y, l2, m2)) => {
            let same_lifetime = match (l1, l2) {
                (Some(p), Some(q)) => *p == *q,
                (None, None) => true,
                _ => false,
            };
            same_lifetime && *m1 == *m2 && same_tree(x, y)
        },
        (TypeTree::Slice(x), TypeTree::Slice(y)) => same_tree(x, y),
        (TypeTree::Tuple(x), TypeTree::Tuple(y)) => same_list(x, y),
        (TypeTree::Path(q1, c1, i1, l1), TypeTree::Path(q2, c2, i2, l2)) => {
            let same_q = match (q1, q2) {
                (Some((t1, p1)), Some((t2, p2))) => *p1 == *p2 && same_tree(t1, t2),
                (None, None) => true,
                _ => false,
            };
            same_q && *c1 == *c2 && same_segments(i1, i2) && same_segment(l1, l2)
        },
        (TypeTree::Other(x), TypeTree::Other(y)) => *x == *y,
        _ => false,
    }
}

fn same_list(a: &TypeList, b: &TypeList) -> (r: bool)
    ensures
        r == (*a == *b),
    decreases a,
{
    match (a, b) {
        (TypeList::Nil, TypeList::Nil) => true,
        (TypeList::Cons(h1, t1), TypeList::Cons(h2, t2)) => same_tree(h1, h2) && same_list(t1, t2),
        _ => false,
    }
}

fn same_segment(a: &Segment, b: &Segment) -> (r: bool)
    ensures
        r == (*a == *b),
    decreases a,
{
    a.ident == b.ident && same_args(&a.args, &b.args)
}

fn same_segments(a: &SegmentList, b: &SegmentList) -> (r: bool)
    ensures
        r == (*a == *b),
    decreases a,
{
    match (a, b) {
        (SegmentList::Nil, SegmentList::Nil) => true,
        (SegmentList::Cons(h1, t1), SegmentList::Cons(h2, t2)) => same_segment(h1, h2)
            && same_segments(t1, t2),
        _ => false,
    }
}

fn same_args(a: &PathArgs, b: &PathArgs) -> (r: bool)
    ensures
        r == (*a == *b),
    decreases a,
{
    match (a, b) {
        (PathArgs::Bare, PathArgs::Bare) => true,
        (PathArgs::Angle(c1, x), PathArgs::Angle(c2, y)) => *c1 == *c2 && same_arg_list(x, y),
        (PathArgs::Paren(i1, o1), PathArgs::Paren(i2, o2)) => {
            let same_out = match (o1, o2) {
                (Some(x), Some(y)) => same_tree(x, y),
                (None, None) => true,
                _ => false,
            };
            same_out && same_list(i1, i2)
        },
        _ => false,
    }
}

fn same_arg_list(a: &ArgList, b: &ArgList) -> (r: bool)
    ensures
        r == (*a == *b),
    decreases a,
{
    match (a, b) {
        (ArgList::Nil, ArgList::Nil) => true,
        (ArgList::Cons(h1, t1), ArgList::Cons(h2, t2)) => same_arg(h1, h2) && same_arg_list(t1, t2),
        _ => false,
    }
}

fn same_arg(a: &GenericArg, b: &GenericArg) -> (r: bool)
    ensures
        r == (*a == *b),
    decreases a,
{
    match (a, b) {
        (GenericArg::Type(x), GenericArg::Type(y)) => same_tree(x, y),
        (GenericArg::AssocType(i1, g1, t1), GenericArg::AssocType(i2, g2, t2)) => {
            let same_gens = match (g1, g2) {
                (Some((c1, x)), Some((c2, y))) => *c1 == *c2 && same_arg_list(x, y),
                (None, None) => true,
                _ => false,
            };
            *i1 == *i2 && same_gens && same_tree(t1, t2)
        },
        (GenericArg::Other(x), GenericArg::Other(y)) => *x == *y,
        _ => false,
    }
}

/// The types within all of `ts` that use the type parameters.
pub open spec fn used_in_all(ts: Seq<TypeTree>, params: Set<u64>) -> Set<TypeTree>
    decreases ts.len(),
{
    if ts.len() == 0 {
        Set::empty()
    } else {
        used_in_all(ts.drop_last(), params).union(used_params(ts.last(), params))
    }
}

fn has_id(params: &Vec<u64>, id: u64) -> (r: bool)
    ensures
        r == params@.to_set().contains(id),
{
    let mut i: usize = 0;
    while i < params.len()
        invariant
            i <= params@.len(),
            forall|j: int| 0 <= j < i ==> params@[j] != id,
        decreases params@.len() - i,
    {
        if params[i] == id {
            assert(params@.to_set().contains(params@[i as int]));
            return true;
        }
        i = i + 1;
    }
    false
}

/// Adds `t` to `out` unless it is there already.
fn insert_tree(out: &mut Vec<TypeTree>, t: TypeTree)
    requires
        old(out)@.no_duplicates(),
    ensures
        final(out)@.no_duplicates(),
        final(out)@.to_set() == old(out)@.to_set().insert(t),
{
    let mut i: usize = 0;
    while i < out.len()
        invariant
            i <= out@.len(),
            out@ == old(out)@,
            out@.no_duplicates(),
            forall|j: int| 0 <= j < i ==> out@[j] != t,
        decreases out@.len() - i,
    {
        if same_tree(&out[i], &t) {
            assert(out@.to_set().contains(t));
            assert(out@.to_set().insert(t) =~= out@.to_set());
            return;
        }
        i = i + 1;
    }
    let ghost before = out@;
    out.push(t);
    proof {
        before.lemma_push_to_set_commute(t);
    }
}

fn collect_used(out: &mut Vec<TypeTree>, t: &TypeTree, params: &Vec<u64>)
    requires
        old(out)@.no_duplicates(),
    ensures
        final(out)@.no_duplicates(),
        final(out)@.to_set() == old(out)@.to_set().union(used_params(*t, params@.to_set())),
    decreases t,
{
    let ghost ps = params@.to_set();
    match t {
        TypeTree::Array(e, _) => collect_used(out, e, params),
        TypeTree::Paren(e) => collect_used(out, e, params),
        TypeTree::Reference(e, _, _) => collect_used(out, e, params),
        TypeTree::Slice(e) => collect_used(out, e, params),
        TypeTree::Tuple(l) => collect_used_in_list(out, l, params),
        TypeTree::Path(None, _, init, last) => {
            let first = match init {
                SegmentList::Nil => last.ident,
                SegmentList::Cons(h, _) => h.ident,
            };
            if has_id(params, first) {
                insert_tree(out, copy_tree(t));
                assert(set![*t] =~= Set::empty().insert(*t));
                assert(old(out)@.to_set().insert(*t) =~= old(out)@.to_set().union(set![*t]));
            } else {
                match &last.args {
                    PathArgs::Angle(_, args) => collect_used_in_args(out, args, params),
                    _ => {
                        assert(old(out)@.to_set().union(Set::empty()) =~= old(out)@.to_set());
                    },
                }
            }
        },
        _ => {
            assert(used_params(*t, ps) =~= Set::empty());
            assert(out@.to_set().union(Set::empty()) =~= out@.to_set());
        },
    }
}

fn collect_used_in_list(out: &mut Vec<TypeTree>, l: &TypeList, params: &Vec<u64>)
    requires
        old(out)@.no_duplicates(),
    ensures
        final(out)@.no_duplicates(),
        final(out)@.to_set() == old(out)@.to_set().union(used_params_in_list(*l, params@.to_set())),
    decreases l,
{
    match l {
        TypeList::Nil => {
            assert(out@.to_set().union(Set::empty()) =~= out@.to_set());
        },
        TypeList::Cons(h, tl) => {
            let ghost s0 = out@.to_set();
            collect_used(out, h, params);
            collect_used_in_list(out, tl, params);
            assert(out@.to_set() =~= s0.union(used_params_in_list(*l, params@.to_set())));
        },
    }
}

fn collect_used_in_args(out: &mut Vec<TypeTree>, l: &ArgList, params: &Vec<u64>)
    requires
        old(out)@.no_duplicates(),
    ensures
        final(out)@.no_duplicates(),
        final(out)@.to_set() == old(out)@.to_set().union(used_params_in_args(*l, params@.to_set())),
    decreases l,
{
    match l {
        ArgList::Nil => {
            assert(out@.to_set().union(Set::empty()) =~= out@.to_set());
        },
        ArgList::Cons(h, tl) => {
            let ghost s0 = out@.to_set();
            match &**h {
                GenericArg::Type(ty) => collect_used(out, ty, params),
                _ => {
                    assert(out@.to_set().union(Set::empty()) =~= out@.to_set());
                },
            }
            collect_used_in_args(out, tl, params);
            assert(out@.to_set() =~= s0.union(used_params_in_args(*l, params@.to_set())));
        },
    }
}

/// The types that the `where` clause bounds: those within the dependencies'
/// types that use one of the type parameters, each once.
pub fn used_type_params(types: &Vec<TypeTree>, params: &Vec<u64>) -> (r: Vec<TypeTree>)
    ensures
        r@.no_duplicates(),
        r@.to_set() == used_in_all(types@, params@.to_set()),
{
    let mut out: Vec<TypeTree> = Vec::new();
    let mut i: usize = 0;
    proof {
        assert(out@.to_set() =~= Set::<TypeTree>::empty());
    }
    while i < types.len()
        invariant
            i <= types@.len(),
            out@.no_duplicates(),
            out@.to_set() == used_in_all(types@.take(i as int), params@.to_set()),
        decreases types@.len() - i,
    {
        collect_used(&mut out, &types[i], params);
        proof {
            assert(types@.take(i + 1).drop_last() =~= types@.take(i as int));
        }
        i = i + 1;
    }
    proof {
        assert(types@.take(types@.len() as int) =~= types@);
    }
    out
}

// ------------------------------------------------ types without `_`

/// Whether `_` occurs in `t` where the replacement looks.
pub open spec fn has_infer(t: TypeTree) -> bool
    decreases t,
{
    match t {
        TypeTree::Infer => true,
        TypeTree::Array(e, _) => has_infer(*e),
        TypeTree::Group(e) => has_infer(*e),
        TypeTree::Paren(e) => has_infer(*e),
        TypeTree::Ptr(e, _) => has_infer(*e),
        TypeTree::Reference(e, _, _) => has_infer(*e),
        TypeTree::Slice(e) => has_infer(*e),
        TypeTree::Tuple(l) => list_has_infer(l),
        TypeTree::Path(q, _, init, last) => (match q {
            Some((qt, _)) => has_infer(*qt),
            None => false,
        }) || segments_have_infer(init) || segment_has_infer(*last),
        TypeTree::Other(_) => false,
    }
}

/// Whether a type of the list holds `_`.
pub open spec fn list_has_infer(l: TypeList) -> bool
    decreases l,
{
    match l {
        TypeList::Nil => false,
        TypeList::Cons(h, tl) => has_infer(*h) || list_has_infer(*tl),
    }
}

/// Whether the arguments of a path segment hold `_`.
pub open spec fn segment_has_infer(s: Segment) -> bool
    decreases s,
{
    args_have_infer(s.args)
}

/// Whether the arguments of some path segment hold `_`.
pub open spec fn segments_have_infer(l: SegmentList) -> bool
    decreases l,
{
    match l {
        SegmentList::Nil => false,
        SegmentList::Cons(h, tl) => segment_has_infer(*h) || segments_have_infer(*tl),
    }
}

/// Whether path arguments hold `_`.
pub open spec fn args_have_infer(a: PathArgs) -> bool
    decreases a,
{
    match a {
        PathArgs::Bare => false,
        PathArgs::Angle(_, args) => arg_list_has_infer(args),
        PathArgs::Paren(inputs, out) => list_has_infer(inputs) || match out {
            Some(o) => has_infer(*o),
            None => false,
        },
    }
}

/// Whether some generic argument holds `_`.
pub open spec fn arg_list_has_infer(l: ArgList) -> bool
    decreases l,
{
    match l {
        ArgList::Nil => false,
        ArgList::Cons(h, tl) => arg_has_infer(*h) || arg_list_has_infer(*tl),
    }
}

/// Whether a generic argument holds `_`.
pub open spec fn arg_has_infer(g: GenericArg) -> bool
    decreases g,
{
    match g {
        GenericArg::Type(t) => has_infer(*t),
        GenericArg::AssocType(_, gens, t) => (match gens {
            Some((_, args)) => arg_list_has_infer(args),
            None => false,
        }) || has_infer(*t),
        GenericArg::Other(_) => false,
    }
}

/// An `as` type without `_` is used as it is written.
pub proof fn lemma_no_infer_unchanged(t: TypeTree, w: TypeTree)
    requires
        !has_infer(t),
    ensures
        replace_infer(t, w) == t,
    decreases t,
{
    match t {
        TypeTree::Array(e, _) => lemma_no_infer_unchanged(*e, w),
        TypeTree::Group(e) => lemma_no_infer_unchanged(*e, w),
        TypeTree::Paren(e) => lemma_no_infer_unchanged(*e, w),
        TypeTree::Ptr(e, _) => lemma_no_infer_unchanged(*e, w),
        TypeTree::Reference(e, _, _) => lemma_no_infer_unchanged(*e, w),
        TypeTree::Slice(e) => lemma_no_infer_unchanged(*e, w),
        TypeTree::Tuple(l) => lemma_list_unchanged(l, w),
        TypeTree::Path(q, _, init, last) => {
            match q {
                Some((qt, _)) => lemma_no_infer_unchanged(*qt, w),
                None => {},
            }
            lemma_segments_unchanged(init, w);
            lemma_segment_unchanged(*last, w);
        },
        _ => {},
    }
}

proof fn lemma_list_unchanged(l: TypeList, w: TypeTree)
    requires
        !list_has_infer(l),
    ensures
        replace_in_list(l, w) == l,
    decreases l,
{
    match l {
        TypeList::Nil => {},
        TypeList::Cons(h, tl) => {
            lemma_no_infer_unchanged(*h, w);
            lemma_list_unchanged(*tl, w);
        },
    }
}

proof fn lemma_segment_unchanged(s: Segment, w: TypeTree)
    requires
        !segment_has_infer(s),
    ensures
        replace_in_segment(s, w) == s,
    decreases s,
{
    lemma_args_unchanged(s.args, w);
}

proof fn lemma_segments_unchanged(l: SegmentList, w: TypeTree)
    requires
        !segments_have_infer(l),
    ensures
        replace_in_segments(l, w) == l,
    decreases l,
{
    match l {
        SegmentList::Nil => {},
        SegmentList::Cons(h, tl) => {
            lemma_segment_unchanged(*h, w);
            lemma_segments_unchanged(*tl, w);
        },
    }
}

proof fn lemma_args_unchanged(a: PathArgs, w: TypeTree)
    requires
        !args_have_infer(a),
    ensures
        replace_in_args(a, w) == a,
    decreases a,
{
    match a {
        PathArgs::Bare => {},
        PathArgs::Angle(_, args) => lemma_arg_list_unchanged(args, w),
        PathArgs::Paren(inputs, out) => {
            lemma_list_unchanged(inputs, w);
            match out {
                Some(o) => lemma_no_infer_unchanged(*o, w),
                None => {},
            }
        },
    }
}

proof fn lemma_arg_list_unchanged(l: ArgList, w: TypeTree)
    requires
        !arg_list_has_infer(l),
    ensures
        replace_in_arg_list(l, w) == l,
    decreases l,
{
    match l {
        ArgList::Nil => {},
        ArgList::Cons(h, tl) => {
            lemma_arg_unchanged(*h, w);
            lemma_arg_list_unchanged(*tl, w);
        },
    }
}

proof fn lemma_arg_unchanged(g: GenericArg, w: TypeTree)
    requires
        !arg_has_infer(g),
    ensures
        replace_in_arg(g, w) == g,
    decreases g,
{
    match g {
        GenericArg::Type(t) => lemma_no_infer_unchanged(*t, w),
        GenericArg::AssocType(_, gens, t) => {
            match gens {
                Some((_, args)) => lemma_arg_list_unchanged(args, w),
                None => {},
            }
            lemma_no_infer_unchanged(*t, w);
        },
        GenericArg::Other(_) => {},
    }
}

/// Once `_` is replaced by a type without `_`, none is left.
pub proof fn lemma_replace_leaves_no_infer(t: TypeTree, w: TypeTree)
    requires
        !has_infer(w),
    ensures
        !has_infer(replace_infer(t, w)),
    decreases t,
{
    match t {
        TypeTree::Array(e, _) => lemma_replace_leaves_no_infer(*e, w),
        TypeTree::Group(e) => lemma_replace_leaves_no_infer(*e, w),
        TypeTree::Paren(e) => lemma_replace_leaves_no_infer(*e, w),
        TypeTree::Ptr(e, _) => lemma_replace_leaves_no_infer(*e, w),
        TypeTree::Reference(e, _, _) => lemma_replace_leaves_no_infer(*e, w),
        TypeTree::Slice(e) => lemma_replace_leaves_no_infer(*e, w),
        TypeTree::Tuple(l) => lemma_list_cleared(l, w),
        TypeTree::Path(q, _, init, last) => {
            match q {
                Some((qt, _)) => lemma_replace_leaves_no_infer(*qt, w),
                None => {},
            }
            lemma_segments_cleared(init, w);
            lemma_segment_cleared(*last, w);
        },
        _ => {},
    }
}

proof fn lemma_list_cleared(l: TypeList, w: TypeTree)
    requires
        !has_infer(w),
    ensures
        !list_has_infer(replace_in_list(l, w)),
    decreases l,
{
    match l {
        TypeList::Nil => {},
        TypeList::Cons(h, tl) => {
            lemma_replace_leaves_no_infer(*h, w);
            lemma_list_cleared(*tl, w);
        },
    }
}

proof fn lemma_segment_cleared(s: Segment, w: TypeTree)
    requires
        !has_infer(w),
    ensures
        !segment_has_infer(replace_in_segment(s, w)),
    decreases s,
{
    lemma_args_cleared(s.args, w);
}

proof fn lemma_segments_cleared(l: SegmentList, w: TypeTree)
    requires
        !has_infer(w),
    ensures
        !segments_have_infer(replace_in_segments(l, w)),
    decreases l,
{
    match l {
        SegmentList::Nil => {},
        SegmentList::Cons(h, tl) => {
            lemma_segment_cleared(*h, w);
            lemma_segments_cleared(*tl, w);
        },
    }
}

proof fn lemma_args_cleared(a: PathArgs, w: TypeTree)
    requires
        !has_infer(w),
    ensures
        !args_have_infer(replace_in_args(a, w)),
    decreases a,
{
    match a {
        PathArgs::Bare => {},
        PathArgs::Angle(_, args) => lemma_arg_list_cleared(args, w),
        PathArgs::Paren(inputs, out) => {
            lemma_list_cleared(inputs, w);
            match out {
                Some(o) => lemma_replace_leaves_no_infer(*o, w),
                None => {},
            }
        },
    }
}

proof fn lemma_arg_list_cleared(l: ArgList, w: TypeTree)
    requires
        !has_infer(w),
    ensures
        !arg_list_has_infer(replace_in_arg_list(l, w)),
    decreases l,
{
    match l {
        ArgList::Nil => {},
        ArgList::Cons(h, tl) => {
            lemma_arg_cleared(*h, w);
            lemma_arg_list_cleared(*tl, w);
        },
    }
}

proof fn lemma_arg_cleared(g: GenericArg, w: TypeTree)
    requires
        !has_infer(w),
    ensures
        !arg_has_infer(replace_in_arg(g, w)),
    decreases g,
{
    match g {
        GenericArg::Type(t) => lemma_replace_leaves_no_infer(*t, w),
        GenericArg::AssocType(_, gens, t) => {
            match gens {
                Some((_, args)) => lemma_arg_list_cleared(args, w),
                None => {},
            }
            lemma_replace_leaves_no_infer(*t, w);
        },
        GenericArg::Other(_) => {},
    }
}

/// The types of a list, in order.
pub open spec fn list_types(l: TypeList) -> Seq<TypeTree>
    decreases l,
{
    match l {
        TypeList::Nil => Seq::empty(),
        TypeList::Cons(h, tl) => seq![*h] + list_types(*tl),
    }
}

/// The type written as the bare name `p`.
pub open spec fn param_type(p: u64) -> TypeTree {
    TypeTree::Path(None, false, SegmentList::Nil, Box::new(Segment { ident: p, args: PathArgs::Bare }))
}

proof fn lemma_list_uses(l: TypeList, params: Set<u64>)
    ensures
        forall|i: int|
            0 <= i < list_types(l).len() ==> used_params(#[trigger] list_types(l)[i], params).subset_of(
                used_params_in_list(l, params),
            ),
        forall|x: TypeTree|
            used_params_in_list(l, params).contains(x) ==> exists|i: int|
                0 <= i < list_types(l).len() && used_params(#[trigger] list_types(l)[i], params).contains(x),
    decreases l,
{
    match l {
        TypeList::Nil => {},
        TypeList::Cons(h, tl) => {
            lemma_list_uses(*tl, params);
            let s = list_types(l);
            assert(s == seq![*h] + list_types(*tl));
            assert(s.len() == list_types(*tl).len() + 1);
            assert(s[0] == *h);
            assert forall|i: int| 0 < i < s.len() implies s[i] == list_types(*tl)[i - 1] by {}
            assert forall|i: int|
                0 <= i < s.len() implies used_params(#[trigger] s[i], params).subset_of(
                used_params_in_list(l, params),
            ) by {
                if i > 0 {
                    assert(s[i] == list_types(*tl)[i - 1]);
                }
            }
            assert forall|x: TypeTree| used_params_in_list(l, params).contains(x) implies exists|i: int|
                0 <= i < s.len() && used_params(#[trigger] s[i], params).contains(x) by {
                if used_params(*h, params).contains(x) {
                    assert(used_params(s[0], params).contains(x));
                } else {
                    assert(used_params_in_list(l, params) == used_params(*h, params).union(
                        used_params_in_list(*tl, params),
                    ));
                    assert(used_params_in_list(*tl, params).contains(x));
                    let j = choose|j: int|
                        0 <= j < list_types(*tl).len() && used_params(#[trigger] list_types(*tl)[j], params).contains(x);
                    assert(0 <= j + 1 < s.len());
                    assert(s[j + 1] == list_types(*tl)[j]);
                    assert(used_params(s[j + 1], params).contains(x));
                }
            }
        },
    }
}

/// The types a `where` clause bounds are found through every part of a type
/// that the derive looks into: a type parameter written bare is used as it
/// is; an array, a pair of parentheses, a reference or a slice uses what its
/// element uses; and a tuple `(A1, .., An)` uses exactly what its elements
/// use, each of them.
pub proof fn lemma_used_params_parts(l: TypeList, e: TypeTree, p: u64, params: Set<u64>, n: u64, lt: Option<u64>, m: bool)
    ensures
        params.contains(p) ==> used_params(param_type(p), params) == set![param_type(p)],
        !params.contains(p) ==> used_params(param_type(p), params) == Set::<TypeTree>::empty(),
        used_params(TypeTree::Array(Box::new(e), n), params) == used_params(e, params),
        used_params(TypeTree::Paren(Box::new(e)), params) == used_params(e, params),
        used_params(TypeTree::Reference(Box::new(e), lt, m), params) == used_params(e, params),
        used_params(TypeTree::Slice(Box::new(e)), params) == used_params(e, params),
        forall|i: int|
            0 <= i < list_types(l).len() ==> used_params(#[trigger] list_types(l)[i], params).subset_of(
                used_params(TypeTree::Tuple(l), params),
            ),
        forall|x: TypeTree|
            used_params(TypeTree::Tuple(l), params).contains(x) ==> exists|i: int|
                0 <= i < list_types(l).len() && used_params(#[trigger] list_types(l)[i], params).contains(x),
{
    lemma_list_uses(l, params);
    assert(used_params(TypeTree::Tuple(l), params) == used_params_in_list(l, params));
}

/// The types bounded for a list of dependencies are those that each of them
/// uses: nothing used by one of them is left out, and nothing else is added.
pub proof fn lemma_used_in_all_collects(ts: Seq<TypeTree>, params: Set<u64>)
    ensures
        forall|i: int| 0 <= i < ts.len() ==> used_params(#[trigger] ts[i], params).subset_of(used_in_all(ts, params)),
        forall|x: TypeTree|
            used_in_all(ts, params).contains(x) ==> exists|i: int|
                0 <= i < ts.len() && used_params(#[trigger] ts[i], params).contains(x),
    decreases ts.len(),
{
    if ts.len() > 0 {
        lemma_used_in_all_collects(ts.drop_last(), params);
        assert forall|i: int| 0 <= i < ts.len() implies used_params(#[trigger] ts[i], params).subset_of(
            used_in_all(ts, params),
        ) by {
            if i < ts.len() - 1 {
                assert(ts.drop_last()[i] == ts[i]);
            }
        }
        assert forall|x: TypeTree| used_in_all(ts, params).contains(x) implies exists|i: int|
            0 <= i < ts.len() && used_params(#[trigger] ts[i], params).contains(x) by {
            if used_in_all(ts.drop_last(), params).contains(x) {
                let j = choose|j: int|
                    0 <= j < ts.drop_last().len() && used_params(#[trigger] ts.drop_last()[j], params).contains(x);
                assert(ts.drop_last()[j] == ts[j]);
            } else {
                assert(used_params(ts[ts.len() - 1], params).contains(x));
            }
        }
    }
}

} // verus!
