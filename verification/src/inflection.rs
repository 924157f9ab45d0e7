//! Renaming rules (`rename_all = "..."`) applied to field and variant names.
use vstd::prelude::*;

use crate::text::{
    ascii_lower, ascii_upper, contains_char, is_ascii_digit, is_ascii_lower, is_ascii_upper, ascii_upper_all, char_is_uppercase, char_to_ascii_lowercase,
    char_to_ascii_uppercase, chars_of, is_ascii_char, push_char, push_chars, push_str,
    replace_char, str_equal, str_to_lowercase, str_to_uppercase, string_from, string_of,
    is_uppercase_char, unicode_lowercase, unicode_uppercase,
};

verus! {

/// A way to rewrite an identifier's case, as `rename_all` names it.
#[derive(Copy, Clone, Debug, PartialEq, Eq, Structural)]
pub enum Inflection {
    Lower,
    Upper,
    Camel,
    Snake,
    Pascal,
    ScreamingSnake,
    Kebab,
    ScreamingKebab,
}

/// What `Snake` emits for the char `c`; `first` tells whether it is the first char.
/// An uppercase char other than the first one is preceded by `_`.
pub open spec fn snake_piece(c: char, first: bool) -> Seq<char> {
    if is_uppercase_char(c) && !first {
        seq!['_', ascii_lower(c)]
    } else {
        seq![ascii_lower(c)]
    }
}

/// `snake_case`: every char lowered (ASCII only), and an `_` put before each
/// uppercase char that is not the first.
pub open spec fn snake_case(s: Seq<char>) -> Seq<char>
    decreases s.len(),
{
    if s.len() == 0 {
        Seq::empty()
    } else {
        snake_case(s.drop_last()) + snake_piece(s.last(), s.len() == 1)
    }
}

/// What `Pascal` emits for the char at index `k` of `s`: nothing for `_`,
/// the ASCII-uppercased char at the start of a word, the char itself otherwise.
pub open spec fn pascal_piece(s: Seq<char>, k: int) -> Seq<char> {
    if s[k] == '_' {
        Seq::empty()
    } else if k == 0 || s[k - 1] == '_' {
        seq![ascii_upper(s[k])]
    } else {
        seq![s[k]]
    }
}

/// `PascalCase`: underscores dropped, the first char of every word ASCII-uppercased.
pub open spec fn pascal_case(s: Seq<char>) -> Seq<char>
    decreases s.len(),
{
    if s.len() == 0 {
        Seq::empty()
    } else {
        pascal_case(s.drop_last()) + pascal_piece(s, s.len() - 1)
    }
}

/// `camelCase` is defined where the PascalCase form starts with an ASCII char
/// (the first byte of it is lowered in place).
pub open spec fn camel_defined(s: Seq<char>) -> bool {
    pascal_case(s).len() > 0 && is_ascii_char(pascal_case(s)[0])
}

/// The camel case of an identifier: its pascal case with the first letter lowered.
pub open spec fn camel_case(s: Seq<char>) -> Seq<char> {
    seq![ascii_lower(pascal_case(s)[0])] + pascal_case(s).skip(1)
}

/// The kebab case of an identifier: its snake case with `-` for `_`.
pub open spec fn kebab_case(s: Seq<char>) -> Seq<char> {
    replace_char(snake_case(s), '_', '-')
}

/// The result of applying inflection `i` to the name `s`.
pub open spec fn inflect(i: Inflection, s: Seq<char>) -> Seq<char> {
    match i {
        Inflection::Lower => unicode_lowercase(s),
        Inflection::Upper => unicode_uppercase(s),
        Inflection::Camel => camel_case(s),
        Inflection::Snake => snake_case(s),
        Inflection::Pascal => pascal_case(s),
        Inflection::ScreamingSnake => ascii_upper_all(snake_case(s)),
        Inflection::Kebab => kebab_case(s),
        Inflection::ScreamingKebab => ascii_upper_all(kebab_case(s)),
    }
}

/// Inputs on which `apply` is defined: `Camel` needs a PascalCase form that
/// starts with an ASCII char.
pub open spec fn inflect_defined(i: Inflection, s: Seq<char>) -> bool {
    i == Inflection::Camel ==> camel_defined(s)
}

/// The name under which an inflection is written in `rename_all = "..."`.
pub open spec fn inflection_name(i: Inflection) -> Seq<char> {
    match i {
        Inflection::Lower => "lowercase"@,
        Inflection::Upper => "UPPERCASE"@,
        Inflection::Camel => "camelCase"@,
        Inflection::Snake => "snake_case"@,
        Inflection::Pascal => "PascalCase"@,
        Inflection::ScreamingSnake => "SCREAMING_SNAKE_CASE"@,
        Inflection::Kebab => "kebab-case"@,
        Inflection::ScreamingKebab => "SCREAMING-KEBAB-CASE"@,
    }
}

/// The inflection written as `value`, if any.
pub open spec fn inflection_named(value: Seq<char>) -> Option<Inflection> {
    if value == "lowercase"@ {
        Some(Inflection::Lower)
    } else if value == "UPPERCASE"@ {
        Some(Inflection::Upper)
    } else if value == "camelCase"@ {
        Some(Inflection::Camel)
    } else if value == "snake_case"@ {
        Some(Inflection::Snake)
    } else if value == "PascalCase"@ {
        Some(Inflection::Pascal)
    } else if value == "SCREAMING_SNAKE_CASE"@ {
        Some(Inflection::ScreamingSnake)
    } else if value == "kebab-case"@ {
        Some(Inflection::Kebab)
    } else if value == "SCREAMING-KEBAB-CASE"@ {
        Some(Inflection::ScreamingKebab)
    } else {
        None
    }
}

/// The error for a `rename_all` value that names no inflection.
pub struct InvalidInflection {
    pub value: String,
}

impl InvalidInflection {
    /// The text that reports the unknown inflection `value`.
    pub open spec fn spec_message(value: Seq<char>) -> Seq<char> {
        "Value \""@ + value
            + "\" is not valid for \"rename_all\". Accepted values are: \"lowercase\", \"UPPERCASE\", \"camelCase\", \"snake_case\", \"PascalCase\", \"SCREAMING_SNAKE_CASE\", \"kebab-case\" and \"SCREAMING-KEBAB-CASE\""@
    }

    /// The text of the error reported to the user.
    pub fn message(&self) -> (r: String)
        ensures
            r@ == Self::spec_message(self.value@),
    {
        let mut r = string_from("Value \"");
        push_str(&mut r, self.value.as_str());
        push_str(
            &mut r,
            "\" is not valid for \"rename_all\". Accepted values are: \"lowercase\", \"UPPERCASE\", \"camelCase\", \"snake_case\", \"PascalCase\", \"SCREAMING_SNAKE_CASE\", \"kebab-case\" and \"SCREAMING-KEBAB-CASE\"",
        );
        r
    }
}

fn snake_chars(v: &Vec<char>) -> (r: Vec<char>)
    ensures
        r@ == snake_case(v@),
{
    let mut r: Vec<char> = Vec::new();
    let mut i: usize = 0;
    while i < v.len()
        invariant
            i <= v@.len(),
            r@ == snake_case(v@.take(i as int)),
        decreases v@.len() - i,
    {
        let ch = v[i];
        let up = char_is_uppercase(ch);
        if up && i != 0 {
            r.push('_');
        }
        r.push(char_to_ascii_lowercase(ch));
        proof {
            let t = v@.take(i as int + 1);
            assert(t.drop_last() =~= v@.take(i as int));
            assert(t.last() == ch);
        }
        i = i + 1;
    }
    assert(v@.take(v@.len() as int) =~= v@);
    r
}

fn pascal_chars(v: &Vec<char>) -> (r: Vec<char>)
    ensures
        r@ == pascal_case(v@),
{
    let mut r: Vec<char> = Vec::new();
    let mut capitalize = true;
    let mut i: usize = 0;
    while i < v.len()
        invariant
            i <= v@.len(),
            r@ == pascal_case(v@.take(i as int)),
            capitalize == (i == 0 || v@[i - 1] == '_'),
        decreases v@.len() - i,
    {
        let c = v[i];
        proof {
            let t = v@.take(i as int + 1);
            assert(t.drop_last() =~= v@.take(i as int));
        }
        if c == '_' {
            capitalize = true;
        } else if capitalize {
            r.push(char_to_ascii_uppercase(c));
            capitalize = false;
        } else {
            r.push(c);
        }
        i = i + 1;
    }
    assert(v@.take(v@.len() as int) =~= v@);
    r
}

fn map_ascii_upper(v: &Vec<char>) -> (r: Vec<char>)
    ensures
        r@ == ascii_upper_all(v@),
{
    let mut r: Vec<char> = Vec::new();
    let mut i: usize = 0;
    while i < v.len()
        invariant
            i <= v@.len(),
            r@ == ascii_upper_all(v@.take(i as int)),
        decreases v@.len() - i,
    {
        r.push(char_to_ascii_uppercase(v[i]));
        i = i + 1;
        assert(r@ =~= ascii_upper_all(v@.take(i as int)));
    }
    assert(v@.take(v@.len() as int) =~= v@);
    r
}

fn map_underscore_to_dash(v: &Vec<char>) -> (r: Vec<char>)
    ensures
        r@ == replace_char(v@, '_', '-'),
{
    let mut r: Vec<char> = Vec::new();
    let mut i: usize = 0;
    while i < v.len()
        invariant
            i <= v@.len(),
            r@ == replace_char(v@.take(i as int), '_', '-'),
        decreases v@.len() - i,
    {
        if v[i] == '_' {
            r.push('-');
        } else {
            r.push(v[i]);
        }
        i = i + 1;
        assert(r@ =~= replace_char(v@.take(i as int), '_', '-'));
    }
    assert(v@.take(v@.len() as int) =~= v@);
    r
}

impl Inflection {
    /// Whether `apply` is defined on `string`: every inflection but
    /// `camelCase` always is; `camelCase` needs a PascalCase form that starts
    /// with an ASCII char, since its first byte is lowered in place.
    pub fn applies_to(self, string: &str) -> (r: bool)
        ensures
            r == inflect_defined(self, string@),
    {
        match self {
            Inflection::Camel => {
                let pascal = pascal_chars(&chars_of(string));
                pascal.len() > 0 && (pascal[0] as u32) < 128
            },
            _ => true,
        }
    }

    /// Renames `string` according to this inflection.
    pub fn apply(self, string: &str) -> (r: String)
        requires
            inflect_defined(self, string@),
        ensures
            r@ == inflect(self, string@),
    {
        match self {
            Inflection::Lower => str_to_lowercase(string),
            Inflection::Upper => str_to_uppercase(string),
            Inflection::Camel => {
                let pascal = pascal_chars(&chars_of(string));
                let mut s = String::new();
                push_char(&mut s, char_to_ascii_lowercase(pascal[0]));
                push_chars(&mut s, &pascal, 1, pascal.len());
                assert(s@ =~= camel_case(string@));
                s
            },
            Inflection::Snake => string_of(&snake_chars(&chars_of(string))),
            Inflection::Pascal => string_of(&pascal_chars(&chars_of(string))),
            Inflection::ScreamingSnake => string_of(
                &map_ascii_upper(&snake_chars(&chars_of(string))),
            ),
            Inflection::Kebab => string_of(
                &map_underscore_to_dash(&snake_chars(&chars_of(string))),
            ),
            Inflection::ScreamingKebab => string_of(
                &map_ascii_upper(&map_underscore_to_dash(&snake_chars(&chars_of(string)))),
            ),
        }
    }

    /// The name of this inflection as written in `rename_all = "..."`.
    pub fn as_str(&self) -> (r: &str)
        ensures
            r@ == inflection_name(*self),
    {
        match self {
            Self::Lower => "lowercase",
            Self::Upper => "UPPERCASE",
            Self::Kebab => "kebab-case",
            Self::Camel => "camelCase",
            Self::Snake => "snake_case",
            Self::Pascal => "PascalCase",
            Self::ScreamingSnake => "SCREAMING_SNAKE_CASE",
            Self::ScreamingKebab => "SCREAMING-KEBAB-CASE",
        }
    }

    /// The inflection named by the string value of a `rename_all` attribute.
    pub fn from_rename_all(value: &str) -> (r: Result<Inflection, InvalidInflection>)
        ensures
            match r {
                Ok(i) => inflection_named(value@) == Some(i),
                Err(e) => inflection_named(value@) is None && e.value@ == value@,
            },
    {
        if str_equal(value, "lowercase") {
            Ok(Inflection::Lower)
        } else if str_equal(value, "UPPERCASE") {
            Ok(Inflection::Upper)
        } else if str_equal(value, "camelCase") {
            Ok(Inflection::Camel)
        } else if str_equal(value, "snake_case") {
            Ok(Inflection::Snake)
        } else if str_equal(value, "PascalCase") {
            Ok(Inflection::Pascal)
        } else if str_equal(value, "SCREAMING_SNAKE_CASE") {
            Ok(Inflection::ScreamingSnake)
        } else if str_equal(value, "kebab-case") {
            Ok(Inflection::Kebab)
        } else if str_equal(value, "SCREAMING-KEBAB-CASE") {
            Ok(Inflection::ScreamingKebab)
        } else {
            Err(InvalidInflection { value: string_from(value) })
        }
    }
}

/// Every inflection is recognised by the name it is written as.
pub proof fn lemma_inflection_name_roundtrip(i: Inflection)
    ensures
        inflection_named(inflection_name(i)) == Some(i),
{
    reveal_strlit("lowercase");
    reveal_strlit("UPPERCASE");
    reveal_strlit("camelCase");
    reveal_strlit("snake_case");
    reveal_strlit("PascalCase");
    reveal_strlit("SCREAMING_SNAKE_CASE");
    reveal_strlit("kebab-case");
    reveal_strlit("SCREAMING-KEBAB-CASE");
    let names = seq![
        "lowercase"@, "UPPERCASE"@, "camelCase"@, "snake_case"@, "PascalCase"@,
        "SCREAMING_SNAKE_CASE"@, "kebab-case"@, "SCREAMING-KEBAB-CASE"@,
    ];
    assert(names[0][0] == 'l' && names[1][0] == 'U' && names[2][0] == 'c' && names[3][0] == 's');
    assert(names[4][0] == 'P' && names[5][0] == 'S' && names[6][0] == 'k' && names[7][0] == 'S');
    assert(names[5][9] == '_' && names[7][9] == '-');
    assert forall|a: int, b: int| 0 <= a < b < 8 implies names[a] != names[b] by {
        if names[a] == names[b] {
            assert(names[a][0] == names[b][0]);
            assert(names[a][9] == names[b][9]);
        }
    }
}

/// A snake_case name holds no ASCII uppercase letter.
pub proof fn lemma_snake_case_has_no_ascii_upper(s: Seq<char>)
    ensures
        forall|k: int| 0 <= k < snake_case(s).len() ==> !is_ascii_upper(#[trigger] snake_case(s)[k]),
    decreases s.len(),
{
    if s.len() > 0 {
        lemma_snake_case_has_no_ascii_upper(s.drop_last());
        let p = snake_case(s.drop_last());
        let q = snake_piece(s.last(), s.len() == 1);
        assert forall|k: int| 0 <= k < snake_case(s).len() implies !is_ascii_upper(
            #[trigger] snake_case(s)[k],
        ) by {
            if k >= p.len() {
                assert(snake_case(s)[k] == q[k - p.len()]);
            } else {
                assert(snake_case(s)[k] == p[k]);
            }
        }
    }
}

/// A PascalCase name holds no underscore.
pub proof fn lemma_pascal_case_has_no_underscore(s: Seq<char>)
    ensures
        !contains_char(pascal_case(s), '_'),
    decreases s.len(),
{
    if s.len() > 0 {
        lemma_pascal_case_has_no_underscore(s.drop_last());
        let p = pascal_case(s.drop_last());
        let q = pascal_piece(s, s.len() - 1);
        assert forall|k: int| 0 <= k < pascal_case(s).len() implies pascal_case(s)[k] != '_' by {
            if k >= p.len() {
                assert(pascal_case(s)[k] == q[k - p.len()]);
            } else {
                assert(pascal_case(s)[k] == p[k]);
            }
        }
    }
}

/// A kebab-case name holds no underscore.
pub proof fn lemma_kebab_case_has_no_underscore(s: Seq<char>)
    ensures
        !contains_char(kebab_case(s), '_'),
{
}

/// A name without uppercase chars is its own snake_case.
pub proof fn lemma_snake_case_of_lowercase(s: Seq<char>)
    requires
        forall|k: int| 0 <= k < s.len() ==> !is_uppercase_char(#[trigger] s[k]) && !is_ascii_upper(s[k]),
    ensures
        snake_case(s) == s,
    decreases s.len(),
{
    if s.len() > 0 {
        lemma_snake_case_of_lowercase(s.drop_last());
        assert(s.drop_last() + seq![s.last()] =~= s);
    }
}

/// The camelCase form of a name is its PascalCase form with the first char lowered.
pub proof fn lemma_camel_is_lowered_pascal(s: Seq<char>)
    requires
        camel_defined(s),
    ensures
        camel_case(s).len() == pascal_case(s).len(),
        camel_case(s)[0] == ascii_lower(pascal_case(s)[0]),
        forall|k: int| 0 < k < camel_case(s).len() ==> #[trigger] camel_case(s)[k] == pascal_case(s)[k],
{
}

/// A snake_case name in its plainest form: ASCII small letters, digits and
/// `_`, starting with a letter, each `_` followed by a letter.
pub open spec fn is_plain_snake_name(s: Seq<char>) -> bool {
    &&& s.len() > 0
    &&& is_ascii_lower(s[0])
    &&& forall|k: int|
        0 <= k < s.len() ==> is_ascii_lower(#[trigger] s[k]) || is_ascii_digit(s[k]) || s[k] == '_'
    &&& forall|k: int| 0 <= k < s.len() && #[trigger] s[k] == '_' ==> k + 1 < s.len() && is_ascii_lower(s[k + 1])
}

proof fn lemma_snake_push(x: Seq<char>, c: char)
    ensures
        snake_case(x.push(c)) == snake_case(x) + snake_piece(c, x.len() == 0),
{
    assert(x.push(c).drop_last() =~= x);
}

proof fn lemma_pascal_first(t: Seq<char>)
    requires
        t.len() > 0,
        t[0] != '_',
    ensures
        pascal_case(t).len() > 0,
        pascal_case(t)[0] == ascii_upper(t[0]),
    decreases t.len(),
{
    let d = t.drop_last();
    assert(pascal_case(t) == pascal_case(d) + pascal_piece(t, t.len() - 1));
    if t.len() > 1 {
        lemma_pascal_first(d);
        assert(d[0] == t[0]);
        assert(pascal_case(t)[0] == pascal_case(d)[0]);
    } else {
        assert(d.len() == 0);
        assert(pascal_case(d) == Seq::<char>::empty());
        assert(pascal_piece(t, 0) == seq![ascii_upper(t[0])]);
    }
}

proof fn lemma_lower_of_upper(c: char)
    requires
        is_ascii_lower(c),
    ensures
        is_ascii_upper(ascii_upper(c)),
        is_ascii_char(ascii_upper(c)),
        ascii_lower(ascii_upper(c)) == c,
{
}

proof fn lemma_snake_pascal_prefix(s: Seq<char>, n: int)
    requires
        is_plain_snake_name(s),
        1 <= n <= s.len(),
        s[n - 1] != '_',
    ensures
        snake_case(pascal_case(s.take(n))) == s.take(n),
    decreases n,
{
    let t = s.take(n);
    let c = s[n - 1];
    assert(t.drop_last() =~= s.take(n - 1));
    assert(t[n - 1] == c);
    if n == 1 {
        lemma_lower_of_upper(c);
        assert(pascal_case(t) =~= pascal_case(s.take(0)) + seq![ascii_upper(c)]);
        assert(pascal_case(s.take(0)) =~= Seq::<char>::empty());
        assert(pascal_case(t) =~= Seq::<char>::empty().push(ascii_upper(c)));
        lemma_snake_push(Seq::<char>::empty(), ascii_upper(c));
        assert(t =~= seq![c]);
    } else if s[n - 2] == '_' {
        assert(s[0] != '_');
        assert(n - 2 >= 1);
        assert(s[n - 3] != '_') by {
            if s[n - 3] == '_' {
                assert(is_ascii_lower(s[n - 2]));
            }
        }
        assert(is_ascii_lower(c));
        lemma_snake_pascal_prefix(s, n - 2);
        let u = s.take(n - 1);
        assert(u.drop_last() =~= s.take(n - 2));
        assert(u[n - 2] == '_');
        assert(pascal_case(u) =~= pascal_case(s.take(n - 2)));
        assert(t[n - 2] == '_');
        let p = pascal_case(s.take(n - 2));
        assert(pascal_case(t) =~= p.push(ascii_upper(c)));
        lemma_pascal_first(s.take(n - 2));
        lemma_lower_of_upper(c);
        lemma_snake_push(p, ascii_upper(c));
        assert(s.take(n - 2) + seq!['_', c] =~= t);
    } else {
        lemma_snake_pascal_prefix(s, n - 1);
        assert(t[n - 2] != '_');
        let p = pascal_case(s.take(n - 1));
        assert(pascal_case(t) =~= p.push(c));
        lemma_pascal_first(s.take(n - 1));
        assert(is_ascii_lower(c) || is_ascii_digit(c));
        lemma_snake_push(p, c);
        assert(s.take(n - 1).push(c) =~= t);
    }
}

proof fn lemma_snake_first_lowered(x: Seq<char>, y: Seq<char>)
    requires
        x.len() == y.len(),
        x.len() > 0,
        ascii_lower(x[0]) == ascii_lower(y[0]),
        forall|k: int| 0 < k < x.len() ==> x[k] == y[k],
    ensures
        snake_case(x) == snake_case(y),
    decreases x.len(),
{
    assert(snake_case(x) == snake_case(x.drop_last()) + snake_piece(x.last(), x.len() == 1));
    assert(snake_case(y) == snake_case(y.drop_last()) + snake_piece(y.last(), y.len() == 1));
    if x.len() > 1 {
        lemma_snake_first_lowered(x.drop_last(), y.drop_last());
        assert(x.last() == y.last());
    } else {
        assert(snake_case(x.drop_last()) == Seq::<char>::empty());
        assert(snake_case(y.drop_last()) == Seq::<char>::empty());
        assert(snake_piece(x.last(), true) == seq![ascii_lower(x[0])]);
        assert(snake_piece(y.last(), true) == seq![ascii_lower(y[0])]);
    }
}

/// A plain snake_case name comes back from its PascalCase and its camelCase
/// form: `snake_case` undoes both.
pub proof fn lemma_snake_case_undoes_pascal_and_camel(s: Seq<char>)
    requires
        is_plain_snake_name(s),
    ensures
        snake_case(pascal_case(s)) == s,
        camel_defined(s),
        snake_case(camel_case(s)) == s,
{
    assert(s[s.len() - 1] != '_') by {
        if s[s.len() - 1] == '_' {
            assert(s.len() - 1 + 1 < s.len());
        }
    }
    lemma_snake_pascal_prefix(s, s.len() as int);
    assert(s.take(s.len() as int) =~= s);
    lemma_pascal_first(s);
    lemma_lower_of_upper(s[0]);
    let p = pascal_case(s);
    let q = camel_case(s);
    assert(ascii_lower(q[0]) == ascii_lower(p[0]));
    lemma_snake_first_lowered(q, p);
}

} // verus!
