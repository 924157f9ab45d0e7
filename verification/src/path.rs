//! The value of `#[ts(export_to = ..)]`: a string literal, the path of a
//! static or constant, the path of a function, or `env("VAR")`.
//!
//! The value is read from the tokens of the attribute (`parse_tokens`), with
//! string literals already read by `syn` into their values.
use vstd::prelude::*;

use crate::text::{chars_of, is_ascii_lower, is_ascii_upper, push_str, str_equal, string_from};

verus! {

/// The delimiters of a group of tokens.
#[derive(Copy, Clone, Debug, PartialEq, Eq, Structural)]
pub enum Delim {
    Paren,
    Bracket,
    Brace,
}

/// One token of the attribute text.
#[derive(Clone, Debug)]
pub enum Token {
    /// `=`
    Eq,
    /// `?`
    Question,
    /// `::`
    PathSep,
    /// `(`, `[` or `{`
    Open(Delim),
    /// `)`, `]` or `}`
    Close(Delim),
    /// An identifier or keyword, raw ones with their `r#` prefix.
    Ident(String),
    /// A string literal, by its value.
    Str(String),
    /// Any other token: other punctuation, numbers, chars, byte strings, doc comments.
    Other,
}

/// A token, with the text of identifiers and strings as char sequences.
pub enum TokenView {
    Eq,
    Question,
    PathSep,
    Open(Delim),
    Close(Delim),
    Ident(Seq<char>),
    Str(Seq<char>),
    Other,
}

impl View for Token {
    type V = TokenView;

    open spec fn view(&self) -> TokenView {
        match self {
            Token::Eq => TokenView::Eq,
            Token::Question => TokenView::Question,
            Token::PathSep => TokenView::PathSep,
            Token::Open(d) => TokenView::Open(*d),
            Token::Close(d) => TokenView::Close(*d),
            Token::Ident(s) => TokenView::Ident(s@),
            Token::Str(s) => TokenView::Str(s@),
            Token::Other => TokenView::Other,
        }
    }
}

/// The tokens of a list, each by its view.
pub open spec fn token_views(v: Seq<Token>) -> Seq<TokenView> {
    v.map_values(|t: Token| t@)
}

// ------------------------------------------------------ delimiter balance

/// The open delimiters after reading `t`, or `None` when a closing one does not match.
pub open spec fn open_delims(t: Seq<TokenView>) -> Option<Seq<Delim>>
    decreases t.len(),
{
    if t.len() == 0 {
        Some(Seq::empty())
    } else {
        match open_delims(t.drop_last()) {
            None => None,
            Some(st) => match t.last() {
                TokenView::Open(d) => Some(st.push(d)),
                TokenView::Close(d) => if st.len() > 0 && st.last() == d {
                    Some(st.drop_last())
                } else {
                    None
                },
                _ => Some(st),
            },
        }
    }
}

/// Every delimiter is closed by a matching one, properly nested.
pub open spec fn balanced(t: Seq<TokenView>) -> bool {
    open_delims(t) == Some(Seq::<Delim>::empty())
}

fn is_balanced(toks: &Vec<Token>) -> (r: bool)
    ensures
        r == balanced(token_views(toks@)),
{
    let ghost tv = token_views(toks@);
    let mut st: Vec<Delim> = Vec::new();
    let mut i: usize = 0;
    while i < toks.len()
        invariant
            tv == token_views(toks@),
            i <= toks@.len(),
            open_delims(tv.take(i as int)) == Some(st@),
        decreases toks@.len() - i,
    {
        assert(tv.take(i + 1).drop_last() =~= tv.take(i as int));
        match &toks[i] {
            Token::Open(d) => {
                st.push(*d);
            },
            Token::Close(d) => {
                if st.len() > 0 && st[st.len() - 1] == *d {
                    st.pop();
                } else {
                    proof {
                        lemma_open_delims_none_extends(tv, i as int + 1);
                    }
                    assert(tv.take(toks@.len() as int) =~= tv);
                    return false;
                }
            },
            _ => {},
        }
        i = i + 1;
    }
    assert(tv.take(toks@.len() as int) =~= tv);
    if st.len() == 0 {
        assert(st@ =~= Seq::<Delim>::empty());
    }
    st.len() == 0
}

proof fn lemma_open_delims_none_extends(t: Seq<TokenView>, k: int)
    requires
        0 <= k <= t.len(),
        open_delims(t.take(k)) is None,
    ensures
        open_delims(t) is None,
    decreases t.len() - k,
{
    if k < t.len() {
        assert(t.take(k + 1).drop_last() =~= t.take(k));
        lemma_open_delims_none_extends(t, k + 1);
    } else {
        assert(t.take(k) =~= t);
    }
}

// --------------------------------------------------------------- parsing

/// A path such as `crate::MY_PATH` or `::a::b`.
#[derive(Clone, Debug, PartialEq, Eq)]
pub struct ItemPath {
    pub leading_colon: bool,
    pub segments: Vec<String>,
}

/// A path by its leading `::` and the texts of its segments.
pub struct ItemPathView {
    pub leading_colon: bool,
    pub segments: Seq<Seq<char>>,
}

impl View for ItemPath {
    type V = ItemPathView;

    open spec fn view(&self) -> ItemPathView {
        ItemPathView {
            leading_colon: self.leading_colon,
            segments: self.segments@.map_values(|s: String| s@),
        }
    }
}

/// Where a type is exported to, as given in `#[ts(export_to = ..)]`.
#[derive(Clone, Debug)]
pub enum CustomPath {
    Str(String),
    Static(ItemPath),
    Fn(ItemPath),
    Env(String),
}

/// A parsed export path, with its texts as sequences of characters.
pub enum CustomPathView {
    Str(Seq<char>),
    Static(ItemPathView),
    Fn(ItemPathView),
    Env(Seq<char>),
}

impl View for CustomPath {
    type V = CustomPathView;

    open spec fn view(&self) -> CustomPathView {
        match self {
            CustomPath::Str(s) => CustomPathView::Str(s@),
            CustomPath::Static(p) => CustomPathView::Static(p@),
            CustomPath::Fn(p) => CustomPathView::Fn(p@),
            CustomPath::Env(s) => CustomPathView::Env(s@),
        }
    }
}

/// Why an `export_to` value was refused.
#[derive(Copy, Clone, Debug, PartialEq, Eq, Structural)]
pub enum PathParseError {
    /// The brackets among the tokens do not match.
    Unbalanced,
    /// The value does not start with `=`.
    ExpectedEq,
    /// `= ?` asks for the reminder on export paths.
    Reminder,
    /// The value is none of the accepted forms.
    InvalidExportTo,
    /// `env(..)` does not hold a string literal.
    ExpectedStringLiteral,
    /// Tokens follow an accepted value.
    UnexpectedToken,
}

/// The reminder on export paths that `= ?` asks for.
pub const PATH_CONVENTION_MSG: &'static str = r###"
Remider on `TS` trait export path convention.

#[ts(export)]

    Generates a test which will export the type, by default to bindings/<name>.ts when running cargo test.
    The default base directory can be overridden with the `TS_RS_EXPORT_DIR` environment variable. Adding the variable to a project's config.toml can make it easier to manage.


# <project-root>/.cargo/config.toml
[env]
TS_RS_EXPORT_DIR = { value = "<OVERRIDE_DIR>", relative = true }


#[ts(export_to = "..")]

    Specifies where the type should be exported to. Defaults to <name>.ts.
    The path given to the export_to attribute is relative to the `TS_RS_EXPORT_DIR` environment variable, or, if `TS_RS_EXPORT_DIR` is not set, to ./bindings .
    If the provided path ends in a trailing /, it is interpreted as a directory.
    Note that you need to add the 'export' attribute as well, in order to generate a test which exports the type.
"###;

/// The forms that `export_to` accepts, shown when a value is none of them.
pub const PARSING_ERROR_MSG: &'static str =
    "`export_to` expects as arguments the following types:

1) string literal
    #[ts(export_to = \"my/path\")]

2) static or constant variable name

    #[ts(export_to = MY_STATIC_PATH)]
    #[ts(export_to = crate::MY_STATIC_PATH)]

Note: This option is available for Rust 1.70.0 and higher!

3) function name of a `Fn(&'static str) -> Option<&'static str>`

    #[ts(export_to = get_path)]
    #[ts(export_to = crate::get_path)]

Note: This option overrides the original `TS::output_path` logic`!

4) environment variable name

    #[ts(export_to = env(\"MY_ENV_VAR_PATH\"))]

Note: This option is for environment variables defined in the '.cargo/config.toml' file only, accessible through the `env!` macro!
";

impl PathParseError {
    /// The text that reports this error.
    pub open spec fn spec_message(self) -> Seq<char> {
        match self {
            PathParseError::Unbalanced => "cannot parse string into token stream"@,
            PathParseError::ExpectedEq => "expected `=`"@,
            PathParseError::Reminder => PATH_CONVENTION_MSG@ + "\n"@ + PARSING_ERROR_MSG@,
            PathParseError::InvalidExportTo => PARSING_ERROR_MSG@,
            PathParseError::ExpectedStringLiteral => "expected string literal"@,
            PathParseError::UnexpectedToken => "unexpected token"@,
        }
    }

    /// The text of the error reported to the user.
    pub fn message(&self) -> (r: String)
        ensures
            r@ == self.spec_message(),
    {
        match self {
            PathParseError::Unbalanced => string_from("cannot parse string into token stream"),
            PathParseError::ExpectedEq => string_from("expected `=`"),
            PathParseError::Reminder => {
                let mut r = string_from(PATH_CONVENTION_MSG);
                push_str(&mut r, "\n");
                push_str(&mut r, PARSING_ERROR_MSG);
                r
            },
            PathParseError::InvalidExportTo => string_from(PARSING_ERROR_MSG),
            PathParseError::ExpectedStringLiteral => string_from("expected string literal"),
            PathParseError::UnexpectedToken => string_from("unexpected token"),
        }
    }
}

/// The words that Rust reserves and that no path segment may be.
pub open spec fn keywords() -> Seq<Seq<char>> {
    seq![
        "_"@, "abstract"@, "as"@, "async"@, "await"@, "become"@, "box"@, "break"@, "const"@,
        "continue"@, "crate"@, "do"@, "dyn"@, "else"@, "enum"@, "extern"@, "false"@, "final"@,
        "fn"@, "for"@, "if"@, "impl"@, "in"@, "let"@, "loop"@, "macro"@, "match"@, "mod"@,
        "move"@, "mut"@, "override"@, "priv"@, "pub"@, "ref"@, "return"@, "Self"@, "self"@,
        "static"@, "struct"@, "super"@, "trait"@, "true"@, "try"@, "type"@, "typeof"@,
        "unsafe"@, "unsized"@, "use"@, "virtual"@, "where"@, "while"@, "yield"@,
    ]
}

/// An identifier token that is not a keyword.
pub open spec fn is_plain_ident(t: TokenView) -> bool {
    t matches TokenView::Ident(w) && !keywords().contains(w)
}

/// Whether a token is the keyword `k`.
pub open spec fn is_keyword_token(t: TokenView, k: Seq<char>) -> bool {
    t == TokenView::Ident(k)
}

/// The words before the first `::`, reading from index `i`: an optional
/// identifier already read, then `self`, `super`, `crate` and a plain
/// identifier, each if present; and the index after them.
pub open spec fn lead_words(t: Seq<TokenView>, i: int, some: Option<Seq<char>>) -> (
    Seq<Seq<char>>,
    int,
) {
    let w0: Seq<Seq<char>> = match some {
        Some(x) => seq![x],
        None => Seq::empty(),
    };
    let (w1, k1) = if i < t.len() && is_keyword_token(t[i], "self"@) {
        (w0.push("self"@), i + 1)
    } else {
        (w0, i)
    };
    let (w2, k2) = if k1 < t.len() && is_keyword_token(t[k1], "super"@) {
        (w1.push("super"@), k1 + 1)
    } else {
        (w1, k1)
    };
    let (w3, k3) = if k2 < t.len() && is_keyword_token(t[k2], "crate"@) {
        (w2.push("crate"@), k2 + 1)
    } else {
        (w2, k2)
    };
    if k3 < t.len() && is_plain_ident(t[k3]) {
        (w3.push(t[k3]->Ident_0), k3 + 1)
    } else {
        (w3, k3)
    }
}

/// The `::name` segments from `k` on, and the index after them; `None` when a
/// `::` is not followed by a plain identifier.
pub open spec fn tail_segments(t: Seq<TokenView>, k: int) -> Option<(Seq<Seq<char>>, int)>
    decreases t.len() - k,
{
    if 0 <= k < t.len() && t[k] == TokenView::PathSep {
        if k + 1 < t.len() && is_plain_ident(t[k + 1]) {
            match tail_segments(t, k + 2) {
                None => None,
                Some((segs, e)) => Some((seq![t[k + 1]->Ident_0] + segs, e)),
            }
        } else {
            None
        }
    } else {
        Some((Seq::empty(), k))
    }
}

/// `Ok(v)` when no token follows the value `v`, which ends before index `e`.
pub open spec fn finish(t: Seq<TokenView>, e: int, v: CustomPathView) -> Result<
    CustomPathView,
    PathParseError,
> {
    if e >= t.len() {
        Ok(v)
    } else {
        Err(PathParseError::UnexpectedToken)
    }
}

/// A path from index `i` (after an optional identifier already read) naming a
/// static or a function.
pub open spec fn parse_path(t: Seq<TokenView>, i: int, some: Option<Seq<char>>) -> Result<
    CustomPathView,
    PathParseError,
> {
    let lead = lead_words(t, i, some);
    let words = lead.0;
    match tail_segments(t, lead.1) {
        None => Err(PathParseError::InvalidExportTo),
        Some((segs, e)) => if words.len() == 1 || (words.len() == 0 && segs.len() >= 1) {
            let path = ItemPathView { leading_colon: words.len() == 0, segments: words + segs };
            let last = path.segments.last();
            if screaming_snake(last) {
                finish(t, e, CustomPathView::Static(path))
            } else if snake(last) {
                finish(t, e, CustomPathView::Fn(path))
            } else {
                Err(PathParseError::InvalidExportTo)
            }
        } else {
            Err(PathParseError::InvalidExportTo)
        },
    }
}

/// The value after the `=`, which stands just before index `i`.
pub open spec fn parse_value(t: Seq<TokenView>, i: int) -> Result<CustomPathView, PathParseError> {
    if i < t.len() && t[i] == TokenView::Question {
        Err(PathParseError::Reminder)
    } else if i < t.len() && t[i] is Str {
        finish(t, i + 1, CustomPathView::Str(t[i]->Str_0))
    } else if i < t.len() && is_plain_ident(t[i]) {
        if t[i]->Ident_0 == "env"@ {
            if i + 1 < t.len() && t[i + 1] == TokenView::Open(Delim::Paren) {
                if i + 2 < t.len() && t[i + 2] is Str {
                    if i + 3 < t.len() && t[i + 3] == TokenView::Close(Delim::Paren) {
                        finish(t, i + 4, CustomPathView::Env(t[i + 2]->Str_0))
                    } else {
                        Err(PathParseError::UnexpectedToken)
                    }
                } else {
                    Err(PathParseError::ExpectedStringLiteral)
                }
            } else {
                Err(PathParseError::InvalidExportTo)
            }
        } else {
            parse_path(t, i + 1, Some(t[i]->Ident_0))
        }
    } else {
        parse_path(t, i, None)
    }
}

/// The value of `export_to` held by the tokens `t` (which start with the `=`).
pub open spec fn parse_tokens(t: Seq<TokenView>) -> Result<CustomPathView, PathParseError> {
    if !balanced(t) {
        Err(PathParseError::Unbalanced)
    } else if t.len() == 0 || t[0] != TokenView::Eq {
        Err(PathParseError::ExpectedEq)
    } else {
        parse_value(t, 1)
    }
}

/// The outcome of parsing an export path, by the view of the path.
pub open spec fn result_view(r: Result<CustomPath, PathParseError>) -> Result<
    CustomPathView,
    PathParseError,
> {
    match r {
        Ok(p) => Ok(p@),
        Err(e) => Err(e),
    }
}

/// An optional string by its characters.
pub open spec fn opt_string_view(s: Option<String>) -> Option<Seq<char>> {
    match s {
        Some(x) => Some(x@),
        None => None,
    }
}

/// The strings of a list, each by its characters.
pub open spec fn string_views(v: Seq<String>) -> Seq<Seq<char>> {
    v.map_values(|s: String| s@)
}

pub(crate) fn is_keyword(w: &str) -> (r: bool)
    ensures
        r == keywords().contains(w@),
{
    let kws: [&str; 52] = [
        "_", "abstract", "as", "async", "await", "become", "box", "break", "const", "continue",
        "crate", "do", "dyn", "else", "enum", "extern", "false", "final", "fn", "for", "if",
        "impl", "in", "let", "loop", "macro", "match", "mod", "move", "mut", "override", "priv",
        "pub", "ref", "return", "Self", "self", "static", "struct", "super", "trait", "true",
        "try", "type", "typeof", "unsafe", "unsized", "use", "virtual", "where", "while",
        "yield",
    ];
    let ghost kv = kws@.map_values(|k: &str| k@);
    assert(kv =~= keywords());
    let mut i: usize = 0;
    while i < 52
        invariant
            i <= 52,
            kws@.len() == 52,
            kv == kws@.map_values(|k: &str| k@),
            kv == keywords(),
            forall|j: int| 0 <= j < i ==> kv[j] != w@,
        decreases 52 - i,
    {
        if str_equal(kws[i], w) {
            assert(kv[i as int] == w@);
            return true;
        }
        i = i + 1;
    }
    assert forall|j: int| 0 <= j < keywords().len() implies keywords()[j] != w@ by {}
    false
}

fn tok_is_plain_ident(t: &Token) -> (r: bool)
    ensures
        r == is_plain_ident(t@),
{
    match t {
        Token::Ident(w) => !is_keyword(w.as_str()),
        _ => false,
    }
}

fn tok_is_word(t: &Token, k: &str) -> (r: bool)
    ensures
        r == is_keyword_token(t@, k@),
{
    match t {
        Token::Ident(w) => str_equal(w.as_str(), k),
        _ => false,
    }
}

fn finish_exec(t: &Vec<Token>, e: usize, v: CustomPath) -> (r: Result<CustomPath, PathParseError>)
    ensures
        result_view(r) == finish(token_views(t@), e as int, v@),
{
    if e >= t.len() {
        Ok(v)
    } else {
        Err(PathParseError::UnexpectedToken)
    }
}

#[verifier::rlimit(40)]
fn parse_path_exec(t: &Vec<Token>, i: usize, some: Option<String>) -> (r: Result<
    CustomPath,
    PathParseError,
>)
    requires
        i <= t@.len(),
    ensures
        result_view(r) == parse_path(token_views(t@), i as int, opt_string_view(some)),
{
    let ghost tv = token_views(t@);
    let ghost somev = opt_string_view(some);
    let ghost lwk = lead_words(tv, i as int, somev);
    let ghost lw = lwk.0;
    let ghost lk = lwk.1;
    let mut words: Vec<String> = Vec::new();
    match some {
        Some(x) => {
            words.push(x);
        },
        None => {},
    }
    let mut k = i;
    if k < t.len() && tok_is_word(&t[k], "self") {
        words.push(string_from("self"));
        k = k + 1;
    }
    if k < t.len() && tok_is_word(&t[k], "super") {
        words.push(string_from("super"));
        k = k + 1;
    }
    if k < t.len() && tok_is_word(&t[k], "crate") {
        words.push(string_from("crate"));
        k = k + 1;
    }
    if k < t.len() && tok_is_plain_ident(&t[k]) {
        match &t[k] {
            Token::Ident(w) => {
                words.push(w.clone());
            },
            _ => {},
        }
        k = k + 1;
    }
    assert(string_views(words@) =~= lw && k == lk);
    let n_words = words.len();
    // the `::name` segments
    let mut segs: Vec<String> = Vec::new();
    while k < t.len() && matches!(t[k], Token::PathSep)
        invariant
            tv == token_views(t@),
            lwk == lead_words(tv, i as int, somev),
            lk == lwk.1,
            lk <= k <= t@.len(),
            match tail_segments(tv, k as int) {
                None => tail_segments(tv, lk) is None,
                Some((rest, e)) => tail_segments(tv, lk) == Some(
                    (string_views(segs@) + rest, e),
                ),
            },
        decreases t@.len() - k,
    {
        assert(tv[k as int] == t@[k as int]@);
        assert(tv[k as int] == TokenView::PathSep);
        if t.len() - k >= 2 && tok_is_plain_ident(&t[k + 1]) {
            assert(tv[k + 1] == t@[k + 1]@);
            let ghost old_segs = string_views(segs@);
            match &t[k + 1] {
                Token::Ident(w) => {
                    segs.push(w.clone());
                },
                _ => {},
            }
            proof {
                match tail_segments(tv, k + 2) {
                    None => {},
                    Some((rest, e)) => {
                        assert(string_views(segs@) =~= old_segs.push(tv[k + 1]->Ident_0));
                        assert(string_views(segs@) + rest =~= old_segs + (seq![
                            tv[k + 1]->Ident_0,
                        ] + rest));
                    },
                }
            }
            k = k + 2;
        } else {
            proof {
                if k + 1 < t@.len() {
                    assert(tv[k + 1] == t@[k + 1]@);
                }
                assert(tail_segments(tv, k as int) is None);
                assert(tail_segments(tv, lk) is None);
                assert(parse_path(tv, i as int, somev) == Err::<CustomPathView, PathParseError>(
                    PathParseError::InvalidExportTo,
                ));
            }
            return Err(PathParseError::InvalidExportTo);
        }
    }
    assert(k < t@.len() ==> tv[k as int] == t@[k as int]@);
    assert(string_views(segs@) + Seq::<Seq<char>>::empty() =~= string_views(segs@));
    assert(tail_segments(tv, k as int) == Some((Seq::<Seq<char>>::empty(), k as int)));
    assert(tail_segments(tv, lk) == Some((string_views(segs@), k as int)));
    assert(lw.len() == n_words);
    assert(string_views(segs@).len() == segs.len());
    if !(n_words == 1 || (n_words == 0 && segs.len() >= 1)) {
        return Err(PathParseError::InvalidExportTo);
    }
    let ghost sv = string_views(segs@);
    let mut all = words;
    let mut segs2 = segs;
    all.append(&mut segs2);
    assert(string_views(all@) =~= lw + sv);
    assert(string_views(all@).last() == all@[all@.len() - 1]@);
    let last_is_screaming = is_screaming_snake_case(all[all.len() - 1].as_str());
    let last_is_snake = is_snake_case(all[all.len() - 1].as_str());
    let path = ItemPath { leading_colon: n_words == 0, segments: all };
    if last_is_screaming {
        finish_exec(t, k, CustomPath::Static(path))
    } else if last_is_snake {
        finish_exec(t, k, CustomPath::Fn(path))
    } else {
        Err(PathParseError::InvalidExportTo)
    }
}

#[verifier::rlimit(40)]
fn parse_value_exec(t: &Vec<Token>, i: usize) -> (r: Result<CustomPath, PathParseError>)
    requires
        i <= t@.len(),
    ensures
        result_view(r) == parse_value(token_views(t@), i as int),
{
    let n = t.len();
    if i < n && matches!(t[i], Token::Question) {
        return Err(PathParseError::Reminder);
    }
    if i < n {
        if let Token::Str(v) = &t[i] {
            return finish_exec(t, i + 1, CustomPath::Str(v.clone()));
        }
    }
    if i < n && tok_is_plain_ident(&t[i]) {
        let w = match &t[i] {
            Token::Ident(w) => w.clone(),
            _ => String::new(),
        };
        if str_equal(w.as_str(), "env") {
            if n - i >= 2 && matches!(t[i + 1], Token::Open(Delim::Paren)) {
                if n - i >= 3 {
                    if let Token::Str(v) = &t[i + 2] {
                        if n - i >= 4 && matches!(t[i + 3], Token::Close(Delim::Paren)) {
                            return finish_exec(t, i + 4, CustomPath::Env(v.clone()));
                        } else {
                            return Err(PathParseError::UnexpectedToken);
                        }
                    }
                }
                return Err(PathParseError::ExpectedStringLiteral);
            } else {
                return Err(PathParseError::InvalidExportTo);
            }
        } else {
            return parse_path_exec(t, i + 1, Some(w));
        }
    }
    parse_path_exec(t, i, None)
}

impl CustomPath {
    /// Reads the tokens of an `export_to` value (starting with its `=`).
    pub fn parse_tokens(t: &Vec<Token>) -> (r: Result<CustomPath, PathParseError>)
        ensures
            result_view(r) == parse_tokens(token_views(t@)),
    {
        if !is_balanced(t) {
            return Err(PathParseError::Unbalanced);
        }
        if t.len() == 0 || !matches!(t[0], Token::Eq) {
            return Err(PathParseError::ExpectedEq);
        }
        parse_value_exec(t, 1)
    }

    /// The file a type is written to when `export_to` is the string `input`:
    /// `input` names a directory when it ends with `/`, and the file is then
    /// `<ts_name>.ts` in it; otherwise `input` is the file.
    pub fn str_path(input: &str, ts_name: &str) -> (r: String)
        ensures
            r@ == export_file(input@, ts_name@),
    {
        let v = chars_of(input);
        if v.len() > 0 && v[v.len() - 1] == '/' {
            let mut r = string_from(input);
            push_str(&mut r, ts_name);
            push_str(&mut r, ".ts");
            r
        } else {
            string_from(input)
        }
    }
}

/// The output file for `export_to = "dir_or_file"` and a type named `ts_name`.
pub open spec fn export_file(dir_or_file: Seq<char>, ts_name: Seq<char>) -> Seq<char> {
    if dir_or_file.len() > 0 && dir_or_file.last() == '/' {
        dir_or_file + ts_name + ".ts"@
    } else {
        dir_or_file
    }
}


// ------------------------------------------------------------------ laws

/// `= "<text>"` gives back `<text>` as the export path, whatever the text.
pub proof fn lemma_string_literal_roundtrip(v: Seq<char>)
    ensures
        parse_tokens(seq![TokenView::Eq, TokenView::Str(v)]) == Ok::<CustomPathView, PathParseError>(
            CustomPathView::Str(v),
        ),
{
    lemma_two_tokens_balanced(TokenView::Str(v));
}

/// `=` followed by one token that opens and closes no group is balanced.
proof fn lemma_two_tokens_balanced(x: TokenView)
    requires
        !(x is Open),
        !(x is Close),
    ensures
        balanced(seq![TokenView::Eq, x]),
{
    let t = seq![TokenView::Eq, x];
    assert(t.drop_last() =~= seq![TokenView::Eq]);
    assert(seq![TokenView::Eq].drop_last() =~= Seq::<TokenView>::empty());
    assert(open_delims(Seq::<TokenView>::empty()) == Some(Seq::<Delim>::empty()));
    assert(open_delims(seq![TokenView::Eq]) == Some(Seq::<Delim>::empty()));
}

/// No keyword is written in SCREAMING_SNAKE_CASE.
proof fn lemma_keywords_not_screaming()
    ensures
        forall|j: int| 0 <= j < keywords().len() ==> !screaming_snake(#[trigger] keywords()[j]),
{
    reveal_strlit("_");
    reveal_strlit("abstract");
    reveal_strlit("as");
    reveal_strlit("async");
    reveal_strlit("await");
    reveal_strlit("become");
    reveal_strlit("box");
    reveal_strlit("break");
    reveal_strlit("const");
    reveal_strlit("continue");
    reveal_strlit("crate");
    reveal_strlit("do");
    reveal_strlit("dyn");
    reveal_strlit("else");
    reveal_strlit("enum");
    reveal_strlit("extern");
    reveal_strlit("false");
    reveal_strlit("final");
    reveal_strlit("fn");
    reveal_strlit("for");
    reveal_strlit("if");
    reveal_strlit("impl");
    reveal_strlit("in");
    reveal_strlit("let");
    reveal_strlit("loop");
    reveal_strlit("macro");
    reveal_strlit("match");
    reveal_strlit("mod");
    reveal_strlit("move");
    reveal_strlit("mut");
    reveal_strlit("override");
    reveal_strlit("priv");
    reveal_strlit("pub");
    reveal_strlit("ref");
    reveal_strlit("return");
    reveal_strlit("Self");
    reveal_strlit("self");
    reveal_strlit("static");
    reveal_strlit("struct");
    reveal_strlit("super");
    reveal_strlit("trait");
    reveal_strlit("true");
    reveal_strlit("try");
    reveal_strlit("type");
    reveal_strlit("typeof");
    reveal_strlit("unsafe");
    reveal_strlit("unsized");
    reveal_strlit("use");
    reveal_strlit("virtual");
    reveal_strlit("where");
    reveal_strlit("while");
    reveal_strlit("yield");
    assert forall|j: int| 0 <= j < keywords().len() implies !screaming_snake(#[trigger] keywords()[j]) by {
        let k = keywords()[j];
        if k.len() > 1 {
            assert(is_ascii_lower(k[1]));
        } else {
            assert(k[0] == '_');
        }
    }
}

/// `= <NAME>` with a name in SCREAMING_SNAKE_CASE is the path of a static or constant.
pub proof fn lemma_screaming_name_is_static(w: Seq<char>)
    requires
        screaming_snake(w),
    ensures
        parse_tokens(seq![TokenView::Eq, TokenView::Ident(w)]) == Ok::<CustomPathView, PathParseError>(
            CustomPathView::Static(ItemPathView { leading_colon: false, segments: seq![w] }),
        ),
{
    lemma_two_tokens_balanced(TokenView::Ident(w));
    lemma_keywords_not_screaming();
    if keywords().contains(w) {
        let j = choose|j: int| 0 <= j < keywords().len() && keywords()[j] == w;
        assert(!screaming_snake(keywords()[j]));
    }
    reveal_strlit("env");
    assert(w != "env"@) by {
        if w == "env"@ {
            assert(w[0] == 'e');
        }
    }
    let t = seq![TokenView::Eq, TokenView::Ident(w)];
    assert(lead_words(t, 2, Some(w)).0 =~= seq![w]);
    assert(tail_segments(t, 2) == Some((Seq::<Seq<char>>::empty(), 2int)));
    assert(seq![w] + Seq::<Seq<char>>::empty() =~= seq![w]);
}

/// `= <name>` with a name in snake_case that is neither a keyword nor `env`
/// is the path of a function.
pub proof fn lemma_snake_name_is_fn(w: Seq<char>)
    requires
        snake(w),
        !keywords().contains(w),
        w != "env"@,
    ensures
        parse_tokens(seq![TokenView::Eq, TokenView::Ident(w)]) == Ok::<CustomPathView, PathParseError>(
            CustomPathView::Fn(ItemPathView { leading_colon: false, segments: seq![w] }),
        ),
{
    lemma_two_tokens_balanced(TokenView::Ident(w));
    let t = seq![TokenView::Eq, TokenView::Ident(w)];
    assert(lead_words(t, 2, Some(w)).0 =~= seq![w]);
    assert(tail_segments(t, 2) == Some((Seq::<Seq<char>>::empty(), 2int)));
    assert(seq![w] + Seq::<Seq<char>>::empty() =~= seq![w]);
    assert(!screaming_snake(w)) by {
        assert(is_ascii_lower(w[0]));
    }
}

// The two functions below mimic Rust's naming conventions for statics,
// constants and functions.

/// `SCREAMING_SNAKE_CASE`: non-empty, ASCII uppercase letters and `_`, no
/// leading, trailing or doubled `_`.
pub open spec fn screaming_snake(s: Seq<char>) -> bool {
    &&& s.len() > 0
    &&& s[0] != '_'
    &&& s.last() != '_'
    &&& forall|k: int| 0 <= k < s.len() - 1 ==> !(#[trigger] s[k] == '_' && s[k + 1] == '_')
    &&& forall|k: int| 0 <= k < s.len() ==> is_ascii_upper(#[trigger] s[k]) || s[k] == '_'
}

/// `snake_case`: non-empty, ASCII lowercase letters and `_`, no leading `_`.
pub open spec fn snake(s: Seq<char>) -> bool {
    &&& s.len() > 0
    &&& s[0] != '_'
    &&& forall|k: int| 0 <= k < s.len() ==> is_ascii_lower(#[trigger] s[k]) || s[k] == '_'
}

/// Whether a name is written in screaming snake case.
pub fn is_screaming_snake_case(s: &str) -> (r: bool)
    ensures
        r == screaming_snake(s@),
{
    let v = chars_of(s);
    let n = v.len();
    if n == 0 || v[0] == '_' || v[n - 1] == '_' {
        return false;
    }
    let mut i: usize = 0;
    while i < n
        invariant
            n == v@.len(),
            v@ == s@,
            i <= n,
            forall|k: int| 0 <= k < i ==> is_ascii_upper(#[trigger] v@[k]) || v@[k] == '_',
            forall|k: int| 0 <= k < i && k < n - 1 ==> !(#[trigger] v@[k] == '_' && v@[k + 1] == '_'),
        decreases n - i,
    {
        let c = v[i];
        if !('A' <= c && c <= 'Z') && c != '_' {
            return false;
        }
        if i + 1 < n && c == '_' && v[i + 1] == '_' {
            return false;
        }
        i = i + 1;
    }
    true
}

/// Whether a name is written in snake case.
pub fn is_snake_case(s: &str) -> (r: bool)
    ensures
        r == snake(s@),
{
    let v = chars_of(s);
    let n = v.len();
    if n == 0 || v[0] == '_' {
        return false;
    }
    let mut i: usize = 0;
    while i < n
        invariant
            n == v@.len(),
            v@ == s@,
            i <= n,
            forall|k: int| 0 <= k < i ==> is_ascii_lower(#[trigger] v@[k]) || v@[k] == '_',
        decreases n - i,
    {
        let c = v[i];
        if !('a' <= c && c <= 'z') && c != '_' {
            return false;
        }
        i = i + 1;
    }
    true
}

} // verus!
