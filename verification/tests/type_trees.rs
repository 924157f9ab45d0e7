use ts_rs::type_tree::{
    copy_tree, same_tree, type_as, used_type_params, ArgList, GenericArg, PathArgs, Segment,
    SegmentList, TypeList, TypeTree,
};

const STRING: u64 = 1;
const OPTION: u64 = 2;
const T: u64 = 3;
const VEC: u64 = 4;
const K: u64 = 5;
const V: u64 = 6;
const MAP: u64 = 7;
const I: u64 = 8;
const ITEM: u64 = 9;

fn plain(id: u64) -> TypeTree {
    TypeTree::Path(None, false, SegmentList::Nil, Box::new(Segment { ident: id, args: PathArgs::Bare }))
}

fn args(types: Vec<TypeTree>) -> ArgList {
    let mut list = ArgList::Nil;
    for t in types.into_iter().rev() {
        list = ArgList::Cons(Box::new(GenericArg::Type(Box::new(t))), Box::new(list));
    }
    list
}

fn generic(id: u64, types: Vec<TypeTree>) -> TypeTree {
    TypeTree::Path(
        None,
        false,
        SegmentList::Nil,
        Box::new(Segment { ident: id, args: PathArgs::Angle(false, args(types)) }),
    )
}

fn assoc(param: u64, item: u64) -> TypeTree {
    TypeTree::Path(
        None,
        false,
        SegmentList::Cons(Box::new(Segment { ident: param, args: PathArgs::Bare }), Box::new(SegmentList::Nil)),
        Box::new(Segment { ident: item, args: PathArgs::Bare }),
    )
}

fn contains(v: &[TypeTree], t: &TypeTree) -> bool {
    v.iter().any(|x| same_tree(x, t))
}

#[test]
fn underscore_takes_the_field_type() {
    let given = generic(OPTION, vec![TypeTree::Infer]);
    let r = type_as(Some(given), &plain(STRING));
    assert!(same_tree(&r, &generic(OPTION, vec![plain(STRING)])));
}

#[test]
fn underscores_in_tuples_and_arrays() {
    let given = TypeTree::Tuple(TypeList::Cons(
        Box::new(TypeTree::Array(Box::new(TypeTree::Infer), 42)),
        Box::new(TypeList::Cons(Box::new(TypeTree::Infer), Box::new(TypeList::Nil))),
    ));
    let r = type_as(Some(given), &plain(STRING));
    let expected = TypeTree::Tuple(TypeList::Cons(
        Box::new(TypeTree::Array(Box::new(plain(STRING)), 42)),
        Box::new(TypeList::Cons(Box::new(plain(STRING)), Box::new(TypeList::Nil))),
    ));
    assert!(same_tree(&r, &expected));
}

#[test]
fn without_as_the_field_type_stays() {
    let r = type_as(None, &plain(STRING));
    assert!(same_tree(&r, &plain(STRING)));
    assert!(!same_tree(&r, &plain(VEC)));
    assert!(same_tree(&copy_tree(&r), &r));
}

#[test]
fn used_parameters() {
    let params = vec![T, K, V, I];
    let types = vec![
        generic(VEC, vec![plain(T)]),
        generic(MAP, vec![plain(K), generic(VEC, vec![plain(V)])]),
        plain(STRING),
        assoc(I, ITEM),
        generic(VEC, vec![plain(T)]),
    ];
    let used = used_type_params(&types, &params);
    assert_eq!(used.len(), 4);
    assert!(contains(&used, &plain(T)));
    assert!(contains(&used, &plain(K)));
    assert!(contains(&used, &plain(V)));
    assert!(contains(&used, &assoc(I, ITEM)));
    assert!(!contains(&used, &plain(STRING)));
}

#[test]
fn pointers_are_not_searched() {
    let ptr = TypeTree::Ptr(Box::new(plain(T)), false);
    assert!(used_type_params(&vec![ptr], &vec![T]).is_empty());
    let slice = TypeTree::Slice(Box::new(plain(T)));
    assert_eq!(used_type_params(&vec![slice], &vec![T]).len(), 1);
}

#[test]
fn as_type_without_underscore_is_kept() {
    let given = generic(VEC, vec![plain(STRING)]);
    let r = type_as(Some(copy_tree(&given)), &plain(T));
    assert!(same_tree(&r, &given));
}

#[test]
fn nested_underscores_all_replaced() {
    let given = generic(MAP, vec![TypeTree::Infer, generic(VEC, vec![TypeTree::Infer])]);
    let r = type_as(Some(given), &plain(STRING));
    let expected = generic(MAP, vec![plain(STRING), generic(VEC, vec![plain(STRING)])]);
    assert!(same_tree(&r, &expected));
}
