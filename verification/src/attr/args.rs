//! The grammar of attribute arguments: `key`, `key = value` or `key(..)`,
//! separated by commas. Each kind of attribute has a table of the keys it
//! knows and how the value of each is written. Values that are Rust
//! expressions or `(..)` groups are given back as token positions.
use vstd::prelude::*;

use super::fn_attr::{Args, InvalidArgs};
use super::unknown_attribute;
use crate::inflection::{inflection_named, Inflection, InvalidInflection};
use crate::optional::{optional_from, Optional};
use crate::path::{is_keyword, keywords, Delim};
use crate::text::{opt_view, str_equal, string_from, string_seq_views};
use super::enum_attr::EnumAttr;
use super::field::FieldAttr;
use super::fn_attr::FnAttr;
use super::struct_attr::StructAttr;
use super::variant::VariantAttr;
use super::generic::GenericAttr;

verus! {

/// One token of an attribute's arguments. A group stands for itself; what is
/// inside it is not read here.
#[derive(Clone, Debug)]
pub enum ArgToken {
    /// An identifier or keyword.
    Ident(String),
    /// One punctuation char.
    Punct(char),
    /// A literal, by its source text.
    Lit(String),
    /// A delimited group.
    Group(Delim),
}

/// What a token of an attribute's argument list is, with its text as a sequence of characters.
pub enum ArgTokenView {
    Ident(Seq<char>),
    Punct(char),
    Lit(Seq<char>),
    Group(Delim),
}

impl View for ArgToken {
    type V = ArgTokenView;

    open spec fn view(&self) -> ArgTokenView {
        match self {
            ArgToken::Ident(s) => ArgTokenView::Ident(s@),
            ArgToken::Punct(c) => ArgTokenView::Punct(*c),
            ArgToken::Lit(s) => ArgTokenView::Lit(s@),
            ArgToken::Group(d) => ArgTokenView::Group(*d),
        }
    }
}

/// The tokens of a list, each by its view.
pub open spec fn arg_token_views(v: Seq<ArgToken>) -> Seq<ArgTokenView> {
    v.map_values(|t: ArgToken| t@)
}

/// How the value after a key is written.
#[derive(Clone, Copy, Debug, PartialEq, Eq, Structural)]
pub enum ValueKind {
    /// Nothing: the key alone.
    Flag,
    /// `= "text"`.
    Str,
    /// `= "text"` naming an inflection.
    Inflection,
    /// `= "inlined"` or `= "flattened"`.
    ArgsStyle,
    /// `= <expression>`, up to the next comma.
    Expr,
    /// `(..)`.
    Parens,
    /// Nothing, `= nullable` or `= false` (any identifier or keyword is read).
    Optional,
    /// Nothing or `= nullable` (a keyword is not read as an identifier).
    FieldOptional,
    /// Nothing or `= "text"`, which is ignored.
    IgnoredStr,
    /// Nothing, or `=` followed by `= "text"`, which is ignored.
    IgnoredEqStr,
}

/// A key an attribute knows, and how its value is written.
pub struct KeySpec {
    pub name: &'static str,
    pub kind: ValueKind,
}

/// The keys that an attribute accepts, each as its name and the kind of value it takes.
pub open spec fn key_views(v: Seq<KeySpec>) -> Seq<(Seq<char>, ValueKind)> {
    v.map_values(|k: KeySpec| (k.name@, k.kind))
}

/// The value read after a key.
pub enum ArgValue {
    Flag,
    Str(String),
    Inflection(Inflection),
    Args(Args),
    /// The positions of the expression's tokens: from the first, to the one
    /// after the last.
    Expr(usize, usize),
    /// The position of the group.
    Parens(usize),
    Optional(Optional),
}

/// What a parsed value is, with its text as a sequence of characters.
pub enum ArgValueView {
    Flag,
    Str(Seq<char>),
    Inflection(Inflection),
    Args(Args),
    Expr(int, int),
    Parens(int),
    Optional(Optional),
}

impl View for ArgValue {
    type V = ArgValueView;

    open spec fn view(&self) -> ArgValueView {
        match self {
            ArgValue::Flag => ArgValueView::Flag,
            ArgValue::Str(s) => ArgValueView::Str(s@),
            ArgValue::Inflection(i) => ArgValueView::Inflection(*i),
            ArgValue::Args(a) => ArgValueView::Args(*a),
            ArgValue::Expr(a, b) => ArgValueView::Expr(*a as int, *b as int),
            ArgValue::Parens(a) => ArgValueView::Parens(*a as int),
            ArgValue::Optional(o) => ArgValueView::Optional(*o),
        }
    }
}

/// A key and its value.
pub struct ArgEntry {
    pub key: String,
    pub value: ArgValue,
}

/// The parsed entries of a list, each as its key and the view of its value.
pub open spec fn entry_views(v: Seq<ArgEntry>) -> Seq<(Seq<char>, ArgValueView)> {
    v.map_values(|e: ArgEntry| (e.key@, e.value@))
}

/// What is wrong with the arguments.
pub enum ArgErrorKind {
    /// No key where one should be (also at the end, after a comma).
    ExpectedKey,
    /// A key the attribute does not know.
    UnknownKey(String),
    ExpectedEq,
    /// No literal where a string should be.
    ExpectedLiteral,
    /// A literal that is not a string.
    ExpectedString,
    ExpectedComma,
    ExpectedExpression,
    ExpectedParens,
    ExpectedIdent,
    ExpectedNullable,
    /// A `rename_all` value that names no inflection.
    InvalidInflection(String),
    /// An `args` value other than `inlined` and `flattened`.
    InvalidArgs(String),
}

/// What went wrong in an argument list, with texts as sequences of characters.
pub enum ArgErrorKindView {
    ExpectedKey,
    UnknownKey(Seq<char>),
    ExpectedEq,
    ExpectedLiteral,
    ExpectedString,
    ExpectedComma,
    ExpectedExpression,
    ExpectedParens,
    ExpectedIdent,
    ExpectedNullable,
    InvalidInflection(Seq<char>),
    InvalidArgs(Seq<char>),
}

impl View for ArgErrorKind {
    type V = ArgErrorKindView;

    open spec fn view(&self) -> ArgErrorKindView {
        match self {
            ArgErrorKind::ExpectedKey => ArgErrorKindView::ExpectedKey,
            ArgErrorKind::UnknownKey(s) => ArgErrorKindView::UnknownKey(s@),
            ArgErrorKind::ExpectedEq => ArgErrorKindView::ExpectedEq,
            ArgErrorKind::ExpectedLiteral => ArgErrorKindView::ExpectedLiteral,
            ArgErrorKind::ExpectedString => ArgErrorKindView::ExpectedString,
            ArgErrorKind::ExpectedComma => ArgErrorKindView::ExpectedComma,
            ArgErrorKind::ExpectedExpression => ArgErrorKindView::ExpectedExpression,
            ArgErrorKind::ExpectedParens => ArgErrorKindView::ExpectedParens,
            ArgErrorKind::ExpectedIdent => ArgErrorKindView::ExpectedIdent,
            ArgErrorKind::ExpectedNullable => ArgErrorKindView::ExpectedNullable,
            ArgErrorKind::InvalidInflection(s) => ArgErrorKindView::InvalidInflection(s@),
            ArgErrorKind::InvalidArgs(s) => ArgErrorKindView::InvalidArgs(s@),
        }
    }
}

/// An error and the position of the token where it was found (the number of
/// tokens when it was found at the end).
pub struct ArgError {
    pub at: usize,
    pub kind: ArgErrorKind,
}

/// An error at token index `at`.
pub open spec fn err(at: int, kind: ArgErrorKindView) -> (int, ArgErrorKindView) {
    (at, kind)
}

// ------------------------------------------------------------------ spec

/// The value that `syn` reads from `text` as a string literal
/// (`syn::LitStr::value`), or nothing where `text` is no string literal.
pub uninterp spec fn syn_lit_str_value(text: Seq<char>) -> Option<Seq<char>>;

/// The value of a string literal written as `text`.
pub open spec fn str_lit_value(text: Seq<char>) -> Option<Seq<char>> {
    syn_lit_str_value(text)
}

/// `= "text"` at `i`: the text and the position after it.
pub open spec fn assign_str(t: Seq<ArgTokenView>, i: int) -> Result<
    (Seq<char>, int),
    (int, ArgErrorKindView),
> {
    if !(0 <= i < t.len() && t[i] == ArgTokenView::Punct('=')) {
        Err(err(i, ArgErrorKindView::ExpectedEq))
    } else if !(i + 1 < t.len() && t[i + 1] is Lit) {
        Err(err(i + 1, ArgErrorKindView::ExpectedLiteral))
    } else {
        match str_lit_value(t[i + 1]->Lit_0) {
            Some(v) => Ok((v, i + 2)),
            None => Err(err(i + 1, ArgErrorKindView::ExpectedString)),
        }
    }
}

/// The position of the first `,` at or after `i`, or the number of tokens.
pub open spec fn next_comma(t: Seq<ArgTokenView>, i: int) -> int
    decreases t.len() - i,
{
    if i >= t.len() {
        t.len() as int
    } else if t[i] == ArgTokenView::Punct(',') {
        i
    } else {
        next_comma(t, i + 1)
    }
}

/// Whether token `i` is the punctuation `=`.
pub open spec fn is_eq_at(t: Seq<ArgTokenView>, i: int) -> bool {
    0 <= i < t.len() && t[i] == ArgTokenView::Punct('=')
}

/// The value of the given kind at `i`, and the position after it.
pub open spec fn parse_value(t: Seq<ArgTokenView>, i: int, kind: ValueKind) -> Result<
    (ArgValueView, int),
    (int, ArgErrorKindView),
> {
    match kind {
        ValueKind::Flag => Ok((ArgValueView::Flag, i)),
        ValueKind::Str => match assign_str(t, i) {
            Ok((v, j)) => Ok((ArgValueView::Str(v), j)),
            Err(e) => Err(e),
        },
        ValueKind::Inflection => match assign_str(t, i) {
            Ok((v, j)) => match inflection_named(v) {
                Some(f) => Ok((ArgValueView::Inflection(f), j)),
                None => Err(err(i + 1, ArgErrorKindView::InvalidInflection(v))),
            },
            Err(e) => Err(e),
        },
        ValueKind::ArgsStyle => match assign_str(t, i) {
            Ok((v, j)) => if v == "inlined"@ {
                Ok((ArgValueView::Args(Args::Inlined), j))
            } else if v == "flattened"@ {
                Ok((ArgValueView::Args(Args::Flattened), j))
            } else {
                Err(err(i + 1, ArgErrorKindView::InvalidArgs(v)))
            },
            Err(e) => Err(e),
        },
        ValueKind::Expr => if !is_eq_at(t, i) {
            Err(err(i, ArgErrorKindView::ExpectedEq))
        } else if next_comma(t, i + 1) == i + 1 {
            Err(err(i + 1, ArgErrorKindView::ExpectedExpression))
        } else {
            Ok((ArgValueView::Expr(i + 1, next_comma(t, i + 1)), next_comma(t, i + 1)))
        },
        ValueKind::Parens => if 0 <= i < t.len() && t[i] == ArgTokenView::Group(Delim::Paren) {
            Ok((ArgValueView::Parens(i), i + 1))
        } else {
            Err(err(i, ArgErrorKindView::ExpectedParens))
        },
        ValueKind::Optional => if !is_eq_at(t, i) {
            Ok((ArgValueView::Optional(Optional::Optional { nullable: false }), i))
        } else if !(i + 1 < t.len() && t[i + 1] is Ident) {
            Err(err(i + 1, ArgErrorKindView::ExpectedIdent))
        } else {
            match optional_from(Some(t[i + 1]->Ident_0)) {
                Some(o) => Ok((ArgValueView::Optional(o), i + 2)),
                None => Err(err(i + 1, ArgErrorKindView::ExpectedNullable)),
            }
        },
        ValueKind::FieldOptional => if !is_eq_at(t, i) {
            Ok((ArgValueView::Optional(Optional::Optional { nullable: false }), i))
        } else if !(i + 1 < t.len() && t[i + 1] is Ident && !keywords().contains(t[i + 1]->Ident_0)) {
            Err(err(i + 1, ArgErrorKindView::ExpectedIdent))
        } else if t[i + 1]->Ident_0 == "nullable"@ {
            Ok((ArgValueView::Optional(Optional::Optional { nullable: true }), i + 2))
        } else {
            Err(err(i + 1, ArgErrorKindView::ExpectedNullable))
        },
        ValueKind::IgnoredStr => if !is_eq_at(t, i) {
            Ok((ArgValueView::Flag, i))
        } else {
            match assign_str(t, i) {
                Ok((_, j)) => Ok((ArgValueView::Flag, j)),
                Err(e) => Err(e),
            }
        },
        ValueKind::IgnoredEqStr => if !is_eq_at(t, i) {
            Ok((ArgValueView::Flag, i))
        } else {
            match assign_str(t, i + 1) {
                Ok((_, j)) => Ok((ArgValueView::Flag, j)),
                Err(e) => Err(e),
            }
        },
    }
}

/// The kind of the first key of the table with this name.
pub open spec fn lookup(keys: Seq<(Seq<char>, ValueKind)>, k: Seq<char>) -> Option<ValueKind>
    decreases keys.len(),
{
    if keys.len() == 0 {
        None
    } else if keys[0].0 == k {
        Some(keys[0].1)
    } else {
        lookup(keys.drop_first(), k)
    }
}

/// The next top-level comma at or after `i` lies between `i` and the end of the tokens.
pub proof fn lemma_next_comma_bounds(t: Seq<ArgTokenView>, i: int)
    requires
        0 <= i,
    ensures
        i <= next_comma(t, i) || (i > t.len() && next_comma(t, i) == t.len()),
        next_comma(t, i) <= t.len() || i > t.len(),
        next_comma(t, i) < t.len() ==> t[next_comma(t, i)] == ArgTokenView::Punct(','),
    decreases t.len() - i,
{
    if i < t.len() && t[i] != ArgTokenView::Punct(',') {
        lemma_next_comma_bounds(t, i + 1);
    }
}

/// Parsing a value from index `i` stops at or after `i` and within the tokens.
pub proof fn lemma_parse_value_advances(t: Seq<ArgTokenView>, i: int, kind: ValueKind)
    requires
        0 <= i <= t.len(),
    ensures
        parse_value(t, i, kind) matches Ok((_, j)) ==> i <= j <= t.len(),
{
    lemma_next_comma_bounds(t, i + 1);
}

/// The entries from position `i` on: a key, its value, then either the end
/// or a comma and more entries.
pub open spec fn parse_entries(t: Seq<ArgTokenView>, keys: Seq<(Seq<char>, ValueKind)>, i: int) -> Result<
    Seq<(Seq<char>, ArgValueView)>,
    (int, ArgErrorKindView),
>
    decreases t.len() - i,
{
    if !(0 <= i < t.len()) {
        Err(err(i, ArgErrorKindView::ExpectedKey))
    } else {
        match t[i] {
            ArgTokenView::Ident(k) => match lookup(keys, k) {
                None => Err(err(i, ArgErrorKindView::UnknownKey(k))),
                Some(kind) => match parse_value(t, i + 1, kind) {
                    Err(e) => Err(e),
                    Ok((v, j)) => {
                        proof {
                            lemma_parse_value_advances(t, i + 1, kind);
                        }
                        if j >= t.len() {
                            Ok(seq![(k, v)])
                        } else if t[j] == ArgTokenView::Punct(',') {
                            match parse_entries(t, keys, j + 1) {
                                Err(e) => Err(e),
                                Ok(rest) => Ok(seq![(k, v)] + rest),
                            }
                        } else {
                            Err(err(j, ArgErrorKindView::ExpectedComma))
                        }
                    },
                },
            },
            _ => Err(err(i, ArgErrorKindView::ExpectedKey)),
        }
    }
}

// ------------------------------------------------------------------ code

/// An error as its token index and the view of its kind.
pub open spec fn err_view(e: ArgError) -> (int, ArgErrorKindView) {
    (e.at as int, e.kind@)
}

/// The value of a string literal written as `text`, if it is one.
pub fn str_lit(text: &str) -> (r: Option<String>)
    ensures
        match r {
            Some(s) => str_lit_value(text@) == Some(s@),
            None => str_lit_value(text@) is None,
        },
{
    read_lit_str(text)
}

/// Parses `text` with `syn::parse_str::<syn::LitStr>` and takes the literal's
/// `value()`; `None` where `syn` refuses the text. The value (escapes
/// resolved, raw strings taken as written) is named, not written out.
#[verifier::external_body]
fn read_lit_str(text: &str) -> (r: Option<String>)
    ensures
        match r {
            Some(s) => syn_lit_str_value(text@) == Some(s@),
            None => syn_lit_str_value(text@) is None,
        },
{
    match syn::parse_str::<syn::LitStr>(text) {
        Ok(lit) => Some(lit.value()),
        Err(_) => None,
    }
}

fn is_punct(t: &Vec<ArgToken>, i: usize, c: char) -> (r: bool)
    ensures
        r == (i < t@.len() && arg_token_views(t@)[i as int] == ArgTokenView::Punct(c)),
{
    if i < t.len() {
        match &t[i] {
            ArgToken::Punct(p) => *p == c,
            _ => false,
        }
    } else {
        false
    }
}

fn read_assign_str(t: &Vec<ArgToken>, i: usize) -> (r: Result<(String, usize), ArgError>)
    requires
        i <= t@.len(),
    ensures
        match assign_str(arg_token_views(t@), i as int) {
            Ok((v, j)) => r matches Ok((s, k)) && s@ == v && k as int == j,
            Err(e) => r matches Err(x) && err_view(x) == e,
        },
{
    let ghost tv = arg_token_views(t@);
    let n = t.len();
    if !is_punct(t, i, '=') {
        return Err(ArgError { at: i, kind: ArgErrorKind::ExpectedEq });
    }
    if i + 1 >= n {
        return Err(ArgError { at: i + 1, kind: ArgErrorKind::ExpectedLiteral });
    }
    match &t[i + 1] {
        ArgToken::Lit(text) => {
            assert(tv[i + 1] == t@[i + 1]@);
            match str_lit(text.as_str()) {
                Some(v) => Ok((v, i + 2)),
                None => Err(ArgError { at: i + 1, kind: ArgErrorKind::ExpectedString }),
            }
        },
        _ => {
            assert(tv[i + 1] == t@[i + 1]@);
            Err(ArgError { at: i + 1, kind: ArgErrorKind::ExpectedLiteral })
        },
    }
}

fn find_comma(t: &Vec<ArgToken>, i: usize) -> (r: usize)
    requires
        i <= t@.len(),
    ensures
        r as int == next_comma(arg_token_views(t@), i as int),
{
    let mut k = i;
    while k < t.len() && !is_punct(t, k, ',')
        invariant
            i <= k <= t@.len(),
            next_comma(arg_token_views(t@), i as int) == next_comma(arg_token_views(t@), k as int),
        decreases t@.len() - k,
    {
        k = k + 1;
    }
    k
}

fn lookup_key(keys: &Vec<KeySpec>, k: &str) -> (r: Option<ValueKind>)
    ensures
        r == lookup(key_views(keys@), k@),
{
    let mut i: usize = 0;
    assert(key_views(keys@).skip(0) =~= key_views(keys@));
    while i < keys.len()
        invariant
            i <= keys@.len(),
            lookup(key_views(keys@), k@) == lookup(key_views(keys@).skip(i as int), k@),
        decreases keys@.len() - i,
    {
        let ghost rest = key_views(keys@).skip(i as int);
        assert(rest[0] == (keys@[i as int].name@, keys@[i as int].kind));
        if str_equal(keys[i].name, k) {
            return Some(keys[i].kind);
        }
        assert(rest.drop_first() =~= key_views(keys@).skip(i + 1));
        i = i + 1;
    }
    assert(key_views(keys@).skip(i as int) =~= Seq::<(Seq<char>, ValueKind)>::empty());
    None
}

fn read_value(t: &Vec<ArgToken>, i: usize, kind: ValueKind) -> (r: Result<(ArgValue, usize), ArgError>)
    requires
        i <= t@.len(),
    ensures
        match parse_value(arg_token_views(t@), i as int, kind) {
            Ok((v, j)) => r matches Ok((x, k)) && x@ == v && k as int == j,
            Err(e) => r matches Err(x) && err_view(x) == e,
        },
{
    let ghost tv = arg_token_views(t@);
    let n = t.len();
    match kind {
        ValueKind::Flag => Ok((ArgValue::Flag, i)),
        ValueKind::Str => match read_assign_str(t, i) {
            Ok((v, j)) => Ok((ArgValue::Str(v), j)),
            Err(e) => Err(e),
        },
        ValueKind::Inflection => match read_assign_str(t, i) {
            Ok((v, j)) => match Inflection::from_rename_all(v.as_str()) {
                Ok(f) => Ok((ArgValue::Inflection(f), j)),
                Err(_) => Err(ArgError { at: i + 1, kind: ArgErrorKind::InvalidInflection(v) }),
            },
            Err(e) => Err(e),
        },
        ValueKind::ArgsStyle => match read_assign_str(t, i) {
            Ok((v, j)) => {
                if str_equal(v.as_str(), "inlined") {
                    Ok((ArgValue::Args(Args::Inlined), j))
                } else if str_equal(v.as_str(), "flattened") {
                    Ok((ArgValue::Args(Args::Flattened), j))
                } else {
                    Err(ArgError { at: i + 1, kind: ArgErrorKind::InvalidArgs(v) })
                }
            },
            Err(e) => Err(e),
        },
        ValueKind::Expr => {
            if !is_punct(t, i, '=') {
                return Err(ArgError { at: i, kind: ArgErrorKind::ExpectedEq });
            }
            let e = find_comma(t, i + 1);
            if e == i + 1 {
                Err(ArgError { at: i + 1, kind: ArgErrorKind::ExpectedExpression })
            } else {
                Ok((ArgValue::Expr(i + 1, e), e))
            }
        },
        ValueKind::Parens => {
            if i < t.len() {
                match &t[i] {
                    ArgToken::Group(Delim::Paren) => {
                        assert(tv[i as int] == t@[i as int]@);
                        return Ok((ArgValue::Parens(i), i + 1));
                    },
                    _ => {
                        assert(tv[i as int] == t@[i as int]@);
                    },
                }
            }
            Err(ArgError { at: i, kind: ArgErrorKind::ExpectedParens })
        },
        ValueKind::Optional | ValueKind::FieldOptional => {
            if !is_punct(t, i, '=') {
                return Ok((ArgValue::Optional(Optional::Optional { nullable: false }), i));
            }
            if i + 1 >= n {
                return Err(ArgError { at: i + 1, kind: ArgErrorKind::ExpectedIdent });
            }
            assert(tv[i + 1] == t@[i + 1]@);
            match &t[i + 1] {
                ArgToken::Ident(w) => {
                    if kind == ValueKind::FieldOptional {
                        if is_keyword(w.as_str()) {
                            Err(ArgError { at: i + 1, kind: ArgErrorKind::ExpectedIdent })
                        } else if str_equal(w.as_str(), "nullable") {
                            Ok((ArgValue::Optional(Optional::Optional { nullable: true }), i + 2))
                        } else {
                            Err(ArgError { at: i + 1, kind: ArgErrorKind::ExpectedNullable })
                        }
                    } else {
                        match crate::optional::parse_optional(Some(w.as_str())) {
                            Ok(o) => Ok((ArgValue::Optional(o), i + 2)),
                            Err(_) => Err(ArgError { at: i + 1, kind: ArgErrorKind::ExpectedNullable }),
                        }
                    }
                },
                _ => Err(ArgError { at: i + 1, kind: ArgErrorKind::ExpectedIdent }),
            }
        },
        ValueKind::IgnoredStr => {
            if !is_punct(t, i, '=') {
                return Ok((ArgValue::Flag, i));
            }
            match read_assign_str(t, i) {
                Ok((_, j)) => Ok((ArgValue::Flag, j)),
                Err(e) => Err(e),
            }
        },
        ValueKind::IgnoredEqStr => {
            if !is_punct(t, i, '=') {
                return Ok((ArgValue::Flag, i));
            }
            match read_assign_str(t, i + 1) {
                Ok((_, j)) => Ok((ArgValue::Flag, j)),
                Err(e) => Err(e),
            }
        },
    }
}

/// The outcome of parsing a list, by the views of its entries or of its error.
pub open spec fn entries_result_view(r: Result<Vec<ArgEntry>, ArgError>) -> Result<
    Seq<(Seq<char>, ArgValueView)>,
    (int, ArgErrorKindView),
> {
    match r {
        Ok(v) => Ok(entry_views(v@)),
        Err(e) => Err(err_view(e)),
    }
}

/// Reads the arguments of one attribute with the keys of `keys`.
pub fn parse_args(t: &Vec<ArgToken>, keys: &Vec<KeySpec>) -> (r: Result<Vec<ArgEntry>, ArgError>)
    ensures
        entries_result_view(r) == parse_entries(arg_token_views(t@), key_views(keys@), 0),
{
    let ghost tv = arg_token_views(t@);
    let ghost kv = key_views(keys@);
    let mut out: Vec<ArgEntry> = Vec::new();
    let mut i: usize = 0;
    proof {
        assert(entry_views(out@) + Seq::empty() =~= entry_views(out@));
    }
    loop
        invariant
            tv == arg_token_views(t@),
            kv == key_views(keys@),
            i <= t@.len(),
            match parse_entries(tv, kv, i as int) {
                Ok(rest) => parse_entries(tv, kv, 0) == Ok::<_, (int, ArgErrorKindView)>(
                    entry_views(out@) + rest,
                ),
                Err(e) => parse_entries(tv, kv, 0) == Err::<Seq<(Seq<char>, ArgValueView)>, _>(e),
            },
        decreases t@.len() - i,
    {
        if i >= t.len() {
            return Err(ArgError { at: i, kind: ArgErrorKind::ExpectedKey });
        }
        assert(tv[i as int] == t@[i as int]@);
        let key = match &t[i] {
            ArgToken::Ident(k) => string_from(k.as_str()),
            _ => {
                return Err(ArgError { at: i, kind: ArgErrorKind::ExpectedKey });
            },
        };
        let kind = match lookup_key(keys, key.as_str()) {
            Some(kind) => kind,
            None => {
                return Err(ArgError { at: i, kind: ArgErrorKind::UnknownKey(key) });
            },
        };
        let (value, j) = match read_value(t, i + 1, kind) {
            Ok(x) => x,
            Err(e) => {
                return Err(e);
            },
        };
        proof {
            lemma_parse_value_advances(tv, i + 1, kind);
        }
        let ghost entry = (key@, value@);
        let ghost before = entry_views(out@);
        out.push(ArgEntry { key, value });
        proof {
            assert(entry_views(out@) =~= before.push(entry));
        }
        if j >= t.len() {
            proof {
                assert(before + seq![entry] =~= entry_views(out@));
            }
            return Ok(out);
        }
        assert(tv[j as int] == t@[j as int]@);
        if !is_punct(t, j, ',') {
            return Err(ArgError { at: j, kind: ArgErrorKind::ExpectedComma });
        }
        proof {
            match parse_entries(tv, kv, j + 1) {
                Ok(rest) => {
                    assert(before + (seq![entry] + rest) =~= entry_views(out@) + rest);
                },
                Err(_) => {},
            }
        }
        i = j + 1;
    }
}

/// The kinds of attribute, each with its own keys.
#[derive(Clone, Copy, Debug, PartialEq, Eq, Structural)]
pub enum AttrKind {
    /// `#[ts(..)]` on a struct
    Struct,
    /// `#[serde(..)]` on a struct
    SerdeStruct,
    /// `#[ts(..)]` on an enum
    Enum,
    /// `#[serde(..)]` on an enum
    SerdeEnum,
    /// `#[ts(..)]` on a variant
    Variant,
    /// `#[serde(..)]` on a variant
    SerdeVariant,
    /// `#[ts(..)]` on a field
    Field,
    /// `#[serde(..)]` on a field
    SerdeField,
    /// `#[ts(..)]` on a type parameter
    Generic,
    /// the attribute on a function
    Fn,
}

/// The keys of an attribute kind, in the order they are listed.
pub open spec fn key_table(kind: AttrKind) -> Seq<(Seq<char>, ValueKind)> {
    match kind {
        AttrKind::Struct => seq![("crate"@, ValueKind::Str), ("as"@, ValueKind::Str), ("type"@, ValueKind::Str), ("rename"@, ValueKind::Expr), ("rename_all"@, ValueKind::Inflection), ("tag"@, ValueKind::Str), ("export"@, ValueKind::Flag), ("export_to"@, ValueKind::Expr), ("concrete"@, ValueKind::Parens), ("bound"@, ValueKind::Str), ("optional_fields"@, ValueKind::Optional)],
        AttrKind::SerdeStruct => seq![("rename"@, ValueKind::Expr), ("rename_all"@, ValueKind::Inflection), ("tag"@, ValueKind::Str), ("bound"@, ValueKind::Str), ("deny_unknown_fields"@, ValueKind::IgnoredEqStr), ("default"@, ValueKind::IgnoredEqStr)],
        AttrKind::Enum => seq![("crate"@, ValueKind::Str), ("as"@, ValueKind::Str), ("type"@, ValueKind::Str), ("rename"@, ValueKind::Expr), ("rename_all"@, ValueKind::Inflection), ("rename_all_fields"@, ValueKind::Inflection), ("export_to"@, ValueKind::Expr), ("export"@, ValueKind::Flag), ("tag"@, ValueKind::Str), ("content"@, ValueKind::Str), ("untagged"@, ValueKind::Flag), ("concrete"@, ValueKind::Parens), ("bound"@, ValueKind::Str)],
        AttrKind::SerdeEnum => seq![("rename"@, ValueKind::Expr), ("rename_all"@, ValueKind::Inflection), ("rename_all_fields"@, ValueKind::Inflection), ("tag"@, ValueKind::Str), ("content"@, ValueKind::Str), ("untagged"@, ValueKind::Flag), ("bound"@, ValueKind::Str)],
        AttrKind::Variant => seq![("as"@, ValueKind::Str), ("type"@, ValueKind::Str), ("rename"@, ValueKind::Expr), ("rename_all"@, ValueKind::Inflection), ("inline"@, ValueKind::Flag), ("skip"@, ValueKind::Flag), ("untagged"@, ValueKind::Flag)],
        AttrKind::SerdeVariant => seq![("rename"@, ValueKind::Expr), ("rename_all"@, ValueKind::Inflection), ("skip"@, ValueKind::Flag), ("untagged"@, ValueKind::Flag)],
        AttrKind::Field => seq![("as"@, ValueKind::Str), ("type"@, ValueKind::Str), ("rename"@, ValueKind::Str), ("inline"@, ValueKind::Flag), ("skip"@, ValueKind::Flag), ("optional"@, ValueKind::FieldOptional), ("flatten"@, ValueKind::Flag)],
        AttrKind::SerdeField => seq![("rename"@, ValueKind::Str), ("skip"@, ValueKind::Flag), ("flatten"@, ValueKind::Flag), ("default"@, ValueKind::IgnoredStr), ("with"@, ValueKind::Str)],
        AttrKind::Generic => seq![("concrete"@, ValueKind::Str)],
        AttrKind::Fn => seq![("crate"@, ValueKind::Str), ("args"@, ValueKind::ArgsStyle), ("export_to"@, ValueKind::Str), ("rename"@, ValueKind::Str), ("rename_all"@, ValueKind::Inflection)],
    }
}

/// The keys as an error lists them.
pub open spec fn shown_keys(kind: AttrKind) -> Seq<Seq<char>> {
    match kind {
        AttrKind::Struct => seq!["\"crate\""@, "\"as\""@, "\"type\""@, "\"rename\""@, "\"rename_all\""@, "\"tag\""@, "\"export\""@, "\"export_to\""@, "\"concrete\""@, "\"bound\""@, "\"optional_fields\""@],
        AttrKind::SerdeStruct => seq!["\"rename\""@, "\"rename_all\""@, "\"tag\""@, "\"bound\""@, "\"deny_unknown_fields\" | \"default\""@],
        AttrKind::Enum => seq!["\"crate\""@, "\"as\""@, "\"type\""@, "\"rename\""@, "\"rename_all\""@, "\"rename_all_fields\""@, "\"export_to\""@, "\"export\""@, "\"tag\""@, "\"content\""@, "\"untagged\""@, "\"concrete\""@, "\"bound\""@],
        AttrKind::SerdeEnum => seq!["\"rename\""@, "\"rename_all\""@, "\"rename_all_fields\""@, "\"tag\""@, "\"content\""@, "\"untagged\""@, "\"bound\""@],
        AttrKind::Variant => seq!["\"as\""@, "\"type\""@, "\"rename\""@, "\"rename_all\""@, "\"inline\""@, "\"skip\""@, "\"untagged\""@],
        AttrKind::SerdeVariant => seq!["\"rename\""@, "\"rename_all\""@, "\"skip\""@, "\"untagged\""@],
        AttrKind::Field => seq!["\"as\""@, "\"type\""@, "\"rename\""@, "\"inline\""@, "\"skip\""@, "\"optional\""@, "\"flatten\""@],
        AttrKind::SerdeField => seq!["\"rename\""@, "\"skip\""@, "\"flatten\""@, "\"default\""@, "\"with\""@],
        AttrKind::Generic => seq!["\"concrete\""@],
        AttrKind::Fn => seq!["\"crate\""@, "\"args\""@, "\"export_to\""@, "\"rename\""@, "\"rename_all\""@],
    }
}

impl AttrKind {
    /// The keys this kind of attribute knows.
    pub fn keys(self) -> (r: Vec<KeySpec>)
        ensures
            key_views(r@) == key_table(self),
    {
        let r = match self {
            AttrKind::Struct => vec![KeySpec { name: "crate", kind: ValueKind::Str }, KeySpec { name: "as", kind: ValueKind::Str }, KeySpec { name: "type", kind: ValueKind::Str }, KeySpec { name: "rename", kind: ValueKind::Expr }, KeySpec { name: "rename_all", kind: ValueKind::Inflection }, KeySpec { name: "tag", kind: ValueKind::Str }, KeySpec { name: "export", kind: ValueKind::Flag }, KeySpec { name: "export_to", kind: ValueKind::Expr }, KeySpec { name: "concrete", kind: ValueKind::Parens }, KeySpec { name: "bound", kind: ValueKind::Str }, KeySpec { name: "optional_fields", kind: ValueKind::Optional }],
            AttrKind::SerdeStruct => vec![KeySpec { name: "rename", kind: ValueKind::Expr }, KeySpec { name: "rename_all", kind: ValueKind::Inflection }, KeySpec { name: "tag", kind: ValueKind::Str }, KeySpec { name: "bound", kind: ValueKind::Str }, KeySpec { name: "deny_unknown_fields", kind: ValueKind::IgnoredEqStr }, KeySpec { name: "default", kind: ValueKind::IgnoredEqStr }],
            AttrKind::Enum => vec![KeySpec { name: "crate", kind: ValueKind::Str }, KeySpec { name: "as", kind: ValueKind::Str }, KeySpec { name: "type", kind: ValueKind::Str }, KeySpec { name: "rename", kind: ValueKind::Expr }, KeySpec { name: "rename_all", kind: ValueKind::Inflection }, KeySpec { name: "rename_all_fields", kind: ValueKind::Inflection }, KeySpec { name: "export_to", kind: ValueKind::Expr }, KeySpec { name: "export", kind: ValueKind::Flag }, KeySpec { name: "tag", kind: ValueKind::Str }, KeySpec { name: "content", kind: ValueKind::Str }, KeySpec { name: "untagged", kind: ValueKind::Flag }, KeySpec { name: "concrete", kind: ValueKind::Parens }, KeySpec { name: "bound", kind: ValueKind::Str }],
            AttrKind::SerdeEnum => vec![KeySpec { name: "rename", kind: ValueKind::Expr }, KeySpec { name: "rename_all", kind: ValueKind::Inflection }, KeySpec { name: "rename_all_fields", kind: ValueKind::Inflection }, KeySpec { name: "tag", kind: ValueKind::Str }, KeySpec { name: "content", kind: ValueKind::Str }, KeySpec { name: "untagged", kind: ValueKind::Flag }, KeySpec { name: "bound", kind: ValueKind::Str }],
            AttrKind::Variant => vec![KeySpec { name: "as", kind: ValueKind::Str }, KeySpec { name: "type", kind: ValueKind::Str }, KeySpec { name: "rename", kind: ValueKind::Expr }, KeySpec { name: "rename_all", kind: ValueKind::Inflection }, KeySpec { name: "inline", kind: ValueKind::Flag }, KeySpec { name: "skip", kind: ValueKind::Flag }, KeySpec { name: "untagged", kind: ValueKind::Flag }],
            AttrKind::SerdeVariant => vec![KeySpec { name: "rename", kind: ValueKind::Expr }, KeySpec { name: "rename_all", kind: ValueKind::Inflection }, KeySpec { name: "skip", kind: ValueKind::Flag }, KeySpec { name: "untagged", kind: ValueKind::Flag }],
            AttrKind::Field => vec![KeySpec { name: "as", kind: ValueKind::Str }, KeySpec { name: "type", kind: ValueKind::Str }, KeySpec { name: "rename", kind: ValueKind::Str }, KeySpec { name: "inline", kind: ValueKind::Flag }, KeySpec { name: "skip", kind: ValueKind::Flag }, KeySpec { name: "optional", kind: ValueKind::FieldOptional }, KeySpec { name: "flatten", kind: ValueKind::Flag }],
            AttrKind::SerdeField => vec![KeySpec { name: "rename", kind: ValueKind::Str }, KeySpec { name: "skip", kind: ValueKind::Flag }, KeySpec { name: "flatten", kind: ValueKind::Flag }, KeySpec { name: "default", kind: ValueKind::IgnoredStr }, KeySpec { name: "with", kind: ValueKind::Str }],
            AttrKind::Generic => vec![KeySpec { name: "concrete", kind: ValueKind::Str }],
            AttrKind::Fn => vec![KeySpec { name: "crate", kind: ValueKind::Str }, KeySpec { name: "args", kind: ValueKind::ArgsStyle }, KeySpec { name: "export_to", kind: ValueKind::Str }, KeySpec { name: "rename", kind: ValueKind::Str }, KeySpec { name: "rename_all", kind: ValueKind::Inflection }],
        };
        assert(key_views(r@) =~= key_table(self));
        r
    }

    /// The keys as an error lists them.
    pub fn shown(self) -> (r: Vec<String>)
        ensures
            string_seq_views(r@) == shown_keys(self),
    {
        let r = match self {
            AttrKind::Struct => vec![string_from("\"crate\""), string_from("\"as\""), string_from("\"type\""), string_from("\"rename\""), string_from("\"rename_all\""), string_from("\"tag\""), string_from("\"export\""), string_from("\"export_to\""), string_from("\"concrete\""), string_from("\"bound\""), string_from("\"optional_fields\"")],
            AttrKind::SerdeStruct => vec![string_from("\"rename\""), string_from("\"rename_all\""), string_from("\"tag\""), string_from("\"bound\""), string_from("\"deny_unknown_fields\" | \"default\"")],
            AttrKind::Enum => vec![string_from("\"crate\""), string_from("\"as\""), string_from("\"type\""), string_from("\"rename\""), string_from("\"rename_all\""), string_from("\"rename_all_fields\""), string_from("\"export_to\""), string_from("\"export\""), string_from("\"tag\""), string_from("\"content\""), string_from("\"untagged\""), string_from("\"concrete\""), string_from("\"bound\"")],
            AttrKind::SerdeEnum => vec![string_from("\"rename\""), string_from("\"rename_all\""), string_from("\"rename_all_fields\""), string_from("\"tag\""), string_from("\"content\""), string_from("\"untagged\""), string_from("\"bound\"")],
            AttrKind::Variant => vec![string_from("\"as\""), string_from("\"type\""), string_from("\"rename\""), string_from("\"rename_all\""), string_from("\"inline\""), string_from("\"skip\""), string_from("\"untagged\"")],
            AttrKind::SerdeVariant => vec![string_from("\"rename\""), string_from("\"rename_all\""), string_from("\"skip\""), string_from("\"untagged\"")],
            AttrKind::Field => vec![string_from("\"as\""), string_from("\"type\""), string_from("\"rename\""), string_from("\"inline\""), string_from("\"skip\""), string_from("\"optional\""), string_from("\"flatten\"")],
            AttrKind::SerdeField => vec![string_from("\"rename\""), string_from("\"skip\""), string_from("\"flatten\""), string_from("\"default\""), string_from("\"with\"")],
            AttrKind::Generic => vec![string_from("\"concrete\"")],
            AttrKind::Fn => vec![string_from("\"crate\""), string_from("\"args\""), string_from("\"export_to\""), string_from("\"rename\""), string_from("\"rename_all\"")],
        };
        assert(string_seq_views(r@) =~= shown_keys(self));
        r
    }

    /// Reads the arguments of an attribute of this kind.
    pub fn parse(self, t: &Vec<ArgToken>) -> (r: Result<Vec<ArgEntry>, ArgError>)
        ensures
            entries_result_view(r) == parse_entries(arg_token_views(t@), key_table(self), 0),
    {
        let keys = self.keys();
        parse_args(t, &keys)
    }
}

/// The text of an error, for an attribute of the given kind.
pub open spec fn arg_error_text(kind: ArgErrorKindView, attr: AttrKind) -> Seq<char> {
    match kind {
        ArgErrorKindView::ExpectedKey => "expected identifier"@,
        ArgErrorKindView::UnknownKey(k) => crate::attr::unknown_attribute_text(k, shown_keys(attr)),
        ArgErrorKindView::ExpectedEq => "expected `=`"@,
        ArgErrorKindView::ExpectedLiteral => "expected literal"@,
        ArgErrorKindView::ExpectedString => "expected string"@,
        ArgErrorKindView::ExpectedComma => "expected `,`"@,
        ArgErrorKindView::ExpectedExpression => "expected an expression"@,
        ArgErrorKindView::ExpectedParens => "expected parentheses"@,
        ArgErrorKindView::ExpectedIdent => "expected identifier"@,
        ArgErrorKindView::ExpectedNullable => "expected 'nullable'"@,
        ArgErrorKindView::InvalidInflection(v) => InvalidInflection::spec_message(v),
        ArgErrorKindView::InvalidArgs(v) => InvalidArgs::spec_message(v),
    }
}

impl ArgError {
    /// The text of the error, for an attribute of the given kind.
    pub fn message(&self, attr: AttrKind) -> (r: String)
        ensures
            r@ == arg_error_text(self.kind@, attr),
    {
        match &self.kind {
            ArgErrorKind::ExpectedKey => string_from("expected identifier"),
            ArgErrorKind::UnknownKey(k) => unknown_attribute(k.as_str(), &attr.shown()),
            ArgErrorKind::ExpectedEq => string_from("expected `=`"),
            ArgErrorKind::ExpectedLiteral => string_from("expected literal"),
            ArgErrorKind::ExpectedString => string_from("expected string"),
            ArgErrorKind::ExpectedComma => string_from("expected `,`"),
            ArgErrorKind::ExpectedExpression => string_from("expected an expression"),
            ArgErrorKind::ExpectedParens => string_from("expected parentheses"),
            ArgErrorKind::ExpectedIdent => string_from("expected identifier"),
            ArgErrorKind::ExpectedNullable => string_from("expected 'nullable'"),
            ArgErrorKind::InvalidInflection(v) => InvalidInflection { value: string_from(v.as_str()) }.message(),
            ArgErrorKind::InvalidArgs(v) => InvalidArgs { found: string_from(v.as_str()) }.message(),
        }
    }
}

// ------------------------------------------------ applying the entries

/// The value of the last entry with this key: a key given twice keeps its
/// later value.
pub open spec fn last_value(e: Seq<(Seq<char>, ArgValueView)>, key: Seq<char>) -> Option<ArgValueView>
    decreases e.len(),
{
    if e.len() == 0 {
        None
    } else if e.last().0 == key {
        Some(e.last().1)
    } else {
        last_value(e.drop_last(), key)
    }
}

/// The value of the last entry with this key.
pub fn last_entry<'a>(entries: &'a Vec<ArgEntry>, key: &str) -> (r: Option<&'a ArgValue>)
    ensures
        match r {
            Some(v) => last_value(entry_views(entries@), key@) == Some(v@),
            None => last_value(entry_views(entries@), key@) is None,
        },
{
    let ghost ev = entry_views(entries@);
    let mut i = entries.len();
    proof {
        assert(ev.take(i as int) =~= ev);
    }
    while i > 0
        invariant
            i <= entries@.len(),
            ev == entry_views(entries@),
            last_value(ev, key@) == last_value(ev.take(i as int), key@),
        decreases i,
    {
        i = i - 1;
        let ghost pre = ev.take(i + 1);
        proof {
            assert(pre.last() == (entries@[i as int].key@, entries@[i as int].value@));
            assert(pre.drop_last() =~= ev.take(i as int));
        }
        if str_equal(entries[i].key.as_str(), key) {
            return Some(&entries[i].value);
        }
    }
    None
}

/// The text of a string value; nothing for any other value.
pub open spec fn str_value(v: Option<ArgValueView>) -> Option<Seq<char>> {
    match v {
        Some(ArgValueView::Str(s)) => Some(s),
        _ => None,
    }
}

/// The inflection of an inflection value; nothing for any other value.
pub open spec fn inflection_value(v: Option<ArgValueView>) -> Option<Inflection> {
    match v {
        Some(ArgValueView::Inflection(i)) => Some(i),
        _ => None,
    }
}

/// A text value, else what was there.
pub open spec fn str_or(v: Option<ArgValueView>, old: Option<Seq<char>>) -> Option<Seq<char>> {
    match str_value(v) {
        Some(s) => Some(s),
        None => old,
    }
}

/// An inflection value, else what was there.
pub open spec fn inflection_or(v: Option<ArgValueView>, old: Option<Inflection>) -> Option<Inflection> {
    match inflection_value(v) {
        Some(i) => Some(i),
        None => old,
    }
}

fn set_str(target: &mut Option<String>, v: Option<&ArgValue>)
    ensures
        opt_view(*final(target)) == str_or(
            match v {
                Some(x) => Some(x@),
                None => None,
            },
            opt_view(*old(target)),
        ),
{
    match v {
        Some(ArgValue::Str(s)) => {
            *target = Some(string_from(s.as_str()));
        },
        _ => {},
    }
}

fn set_inflection(target: &mut Option<Inflection>, v: Option<&ArgValue>)
    ensures
        *final(target) == inflection_or(
            match v {
                Some(x) => Some(x@),
                None => None,
            },
            *old(target),
        ),
{
    match v {
        Some(ArgValue::Inflection(i)) => {
            *target = Some(*i);
        },
        _ => {},
    }
}

/// Sets the options of a struct that the entries give as plain values: the
/// `type`, `rename_all`, `tag`, `export` and `optional_fields`, each from its
/// last entry. The options written in Rust syntax are left as they are.
pub fn apply_struct(attr: &mut StructAttr, entries: &Vec<ArgEntry>)
    ensures
        ({
            let e = entry_views(entries@);
            &&& opt_view(final(attr).type_override) == str_or(last_value(e, "type"@), opt_view(old(attr).type_override))
            &&& final(attr).rename_all == inflection_or(last_value(e, "rename_all"@), old(attr).rename_all)
            &&& opt_view(final(attr).tag) == str_or(last_value(e, "tag"@), opt_view(old(attr).tag))
            &&& final(attr).export == (old(attr).export || last_value(e, "export"@) is Some)
            &&& final(attr).optional_fields == match last_value(e, "optional_fields"@) {
                Some(ArgValueView::Optional(o)) => o,
                _ => old(attr).optional_fields,
            }
            &&& final(attr).crate_rename == old(attr).crate_rename
            &&& final(attr).type_as == old(attr).type_as
            &&& final(attr).rename == old(attr).rename
            &&& final(attr).export_to == old(attr).export_to
            &&& final(attr).docs == old(attr).docs
            &&& final(attr).concrete == old(attr).concrete
            &&& final(attr).bound == old(attr).bound
        }),
{
    set_str(&mut attr.type_override, last_entry(entries, "type"));
    set_inflection(&mut attr.rename_all, last_entry(entries, "rename_all"));
    set_str(&mut attr.tag, last_entry(entries, "tag"));
    if last_entry(entries, "export").is_some() {
        attr.export = true;
    }
    match last_entry(entries, "optional_fields") {
        Some(ArgValue::Optional(o)) => {
            attr.optional_fields = *o;
        },
        _ => {},
    }
}

/// Sets the options of an enum that the entries give as plain values.
pub fn apply_enum(attr: &mut EnumAttr, entries: &Vec<ArgEntry>)
    ensures
        ({
            let e = entry_views(entries@);
            &&& opt_view(final(attr).type_override) == str_or(last_value(e, "type"@), opt_view(old(attr).type_override))
            &&& final(attr).rename_all == inflection_or(last_value(e, "rename_all"@), old(attr).rename_all)
            &&& final(attr).rename_all_fields == inflection_or(
                last_value(e, "rename_all_fields"@),
                old(attr).rename_all_fields,
            )
            &&& opt_view(final(attr).tag) == str_or(last_value(e, "tag"@), opt_view(old(attr).tag))
            &&& opt_view(final(attr).content) == str_or(last_value(e, "content"@), opt_view(old(attr).content))
            &&& final(attr).export == (old(attr).export || last_value(e, "export"@) is Some)
            &&& final(attr).untagged == (old(attr).untagged || last_value(e, "untagged"@) is Some)
            &&& final(attr).crate_rename == old(attr).crate_rename
            &&& final(attr).type_as == old(attr).type_as
            &&& final(attr).rename == old(attr).rename
            &&& final(attr).export_to == old(attr).export_to
            &&& final(attr).docs == old(attr).docs
            &&& final(attr).concrete == old(attr).concrete
            &&& final(attr).bound == old(attr).bound
        }),
{
    set_str(&mut attr.type_override, last_entry(entries, "type"));
    set_inflection(&mut attr.rename_all, last_entry(entries, "rename_all"));
    set_inflection(&mut attr.rename_all_fields, last_entry(entries, "rename_all_fields"));
    set_str(&mut attr.tag, last_entry(entries, "tag"));
    set_str(&mut attr.content, last_entry(entries, "content"));
    if last_entry(entries, "export").is_some() {
        attr.export = true;
    }
    if last_entry(entries, "untagged").is_some() {
        attr.untagged = true;
    }
}

/// Sets the options of a variant that the entries give as plain values.
pub fn apply_variant(attr: &mut VariantAttr, entries: &Vec<ArgEntry>)
    ensures
        ({
            let e = entry_views(entries@);
            &&& opt_view(final(attr).type_override) == str_or(last_value(e, "type"@), opt_view(old(attr).type_override))
            &&& final(attr).rename_all == inflection_or(last_value(e, "rename_all"@), old(attr).rename_all)
            &&& final(attr).inline == (old(attr).inline || last_value(e, "inline"@) is Some)
            &&& final(attr).skip == (old(attr).skip || last_value(e, "skip"@) is Some)
            &&& final(attr).untagged == (old(attr).untagged || last_value(e, "untagged"@) is Some)
            &&& final(attr).type_as == old(attr).type_as
            &&& final(attr).rename == old(attr).rename
        }),
{
    set_str(&mut attr.type_override, last_entry(entries, "type"));
    set_inflection(&mut attr.rename_all, last_entry(entries, "rename_all"));
    if last_entry(entries, "inline").is_some() {
        attr.inline = true;
    }
    if last_entry(entries, "skip").is_some() {
        attr.skip = true;
    }
    if last_entry(entries, "untagged").is_some() {
        attr.untagged = true;
    }
}

/// Sets the options of a field that the entries give as plain values; `with`
/// marks a field whose serialization is custom.
pub fn apply_field(attr: &mut FieldAttr, entries: &Vec<ArgEntry>)
    ensures
        ({
            let e = entry_views(entries@);
            &&& opt_view(final(attr).type_override) == str_or(last_value(e, "type"@), opt_view(old(attr).type_override))
            &&& opt_view(final(attr).rename) == str_or(last_value(e, "rename"@), opt_view(old(attr).rename))
            &&& final(attr).inline == (old(attr).inline || last_value(e, "inline"@) is Some)
            &&& final(attr).skip == (old(attr).skip || last_value(e, "skip"@) is Some)
            &&& final(attr).flatten == (old(attr).flatten || last_value(e, "flatten"@) is Some)
            &&& final(attr).using_serde_with == (old(attr).using_serde_with || last_value(e, "with"@) is Some)
            &&& final(attr).optional == match last_value(e, "optional"@) {
                Some(ArgValueView::Optional(Optional::Optional { nullable })) => crate::attr::field::Optional {
                    optional: true,
                    nullable,
                },
                _ => old(attr).optional,
            }
            &&& final(attr).type_as == old(attr).type_as
            &&& final(attr).docs == old(attr).docs
        }),
{
    set_str(&mut attr.type_override, last_entry(entries, "type"));
    set_str(&mut attr.rename, last_entry(entries, "rename"));
    if last_entry(entries, "inline").is_some() {
        attr.inline = true;
    }
    if last_entry(entries, "skip").is_some() {
        attr.skip = true;
    }
    if last_entry(entries, "flatten").is_some() {
        attr.flatten = true;
    }
    if last_entry(entries, "with").is_some() {
        attr.using_serde_with = true;
    }
    match last_entry(entries, "optional") {
        Some(ArgValue::Optional(Optional::Optional { nullable })) => {
            attr.optional = crate::attr::field::Optional { optional: true, nullable: *nullable };
        },
        _ => {},
    }
}

/// Sets the concrete type of a type parameter from the entries.
pub fn apply_generic(attr: &mut GenericAttr, entries: &Vec<ArgEntry>)
    ensures
        opt_view(final(attr).concrete) == str_or(
            last_value(entry_views(entries@), "concrete"@),
            opt_view(old(attr).concrete),
        ),
{
    set_str(&mut attr.concrete, last_entry(entries, "concrete"));
}

/// Sets the options of a function that the entries give as plain values.
pub fn apply_fn(attr: &mut FnAttr, entries: &Vec<ArgEntry>)
    ensures
        ({
            let e = entry_views(entries@);
            &&& final(attr).args == match last_value(e, "args"@) {
                Some(ArgValueView::Args(a)) => a,
                _ => old(attr).args,
            }
            &&& opt_view(final(attr).export_to) == str_or(last_value(e, "export_to"@), opt_view(old(attr).export_to))
            &&& opt_view(final(attr).rename) == str_or(last_value(e, "rename"@), opt_view(old(attr).rename))
            &&& final(attr).rename_all == inflection_or(last_value(e, "rename_all"@), old(attr).rename_all)
            &&& final(attr).crate_rename == old(attr).crate_rename
        }),
{
    match last_entry(entries, "args") {
        Some(ArgValue::Args(a)) => {
            attr.args = *a;
        },
        _ => {},
    }
    set_str(&mut attr.export_to, last_entry(entries, "export_to"));
    set_str(&mut attr.rename, last_entry(entries, "rename"));
    set_inflection(&mut attr.rename_all, last_entry(entries, "rename_all"));
}

// ------------------------------------------------------------------ laws

/// Whether a value is of the shape its key's kind reads.
pub open spec fn fits(kind: ValueKind, v: ArgValueView) -> bool {
    match kind {
        ValueKind::Flag | ValueKind::IgnoredStr | ValueKind::IgnoredEqStr => v is Flag,
        ValueKind::Str => v is Str,
        ValueKind::Inflection => v is Inflection,
        ValueKind::ArgsStyle => v is Args,
        ValueKind::Expr => v is Expr,
        ValueKind::Parens => v is Parens,
        ValueKind::Optional | ValueKind::FieldOptional => v is Optional,
    }
}

/// Every entry read names a key of the table and has a value of the shape
/// that key reads; an expression's tokens lie within the arguments.
pub proof fn lemma_entries_fit(t: Seq<ArgTokenView>, keys: Seq<(Seq<char>, ValueKind)>, i: int)
    requires
        0 <= i,
    ensures
        parse_entries(t, keys, i) matches Ok(es) ==> forall|j: int|
            0 <= j < es.len() ==> (lookup(keys, (#[trigger] es[j]).0) matches Some(k) && fits(k, es[j].1)
                && (es[j].1 matches ArgValueView::Expr(a, b) ==> i < a < b <= t.len())),
    decreases t.len() - i,
{
    if 0 <= i < t.len() {
        if let ArgTokenView::Ident(k) = t[i] {
            if let Some(kind) = lookup(keys, k) {
                lemma_next_comma_bounds(t, i + 2);
                lemma_parse_value_advances(t, i + 1, kind);
                if let Ok((v, j)) = parse_value(t, i + 1, kind) {
                    if j < t.len() && t[j] == ArgTokenView::Punct(',') {
                        lemma_entries_fit(t, keys, j + 1);
                        if let Ok(rest) = parse_entries(t, keys, j + 1) {
                            let es = seq![(k, v)] + rest;
                            assert forall|x: int| 0 <= x < es.len() implies (lookup(keys, (#[trigger] es[x]).0) matches Some(kk) && fits(kk, es[x].1)
                                && (es[x].1 matches ArgValueView::Expr(a, b) ==> i < a < b <= t.len())) by {
                                if x > 0 {
                                    assert(es[x] == rest[x - 1]);
                                }
                            }
                        }
                    }
                }
            }
        }
    }
}

} // verus!
