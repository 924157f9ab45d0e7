//! Names and doc comments as they appear in the generated TypeScript.
use vstd::prelude::*;

use crate::text::{
    char_is_alphanumeric, char_is_numeric, chars_of, contains_char, has_char, push_char,
    push_chars, push_str, string_from, is_alphanumeric_char, is_numeric_char,
};

verus! {

/// A char that may appear in an unquoted TypeScript field name.
pub open spec fn is_ts_field_char(c: char) -> bool {
    is_alphanumeric_char(c) || c == '_' || c == '$'
}

/// A name that can be written as a TypeScript field without quotes: made of
/// field chars, and not starting with a numeric char.
pub open spec fn is_valid_ts_field(s: Seq<char>) -> bool {
    &&& forall|k: int| 0 <= k < s.len() ==> is_ts_field_char(#[trigger] s[k])
    &&& (s.len() == 0 || !is_numeric_char(s[0]))
}

/// The text of `s` inside a double-quoted string: each `\` and `"` gets a
/// `\` in front of it.
pub open spec fn escape_quoted(s: Seq<char>) -> Seq<char>
    decreases s.len(),
{
    if s.len() == 0 {
        Seq::empty()
    } else {
        let c = s.last();
        escape_quoted(s.drop_last()) + if c == '\\' || c == '"' {
            seq!['\\', c]
        } else {
            seq![c]
        }
    }
}

/// The field name written for `s`: `s` itself when valid, else `s` as a
/// double-quoted string literal, with its `\` and `"` escaped.
pub open spec fn ts_field(s: Seq<char>) -> Seq<char> {
    if is_valid_ts_field(s) {
        s
    } else {
        seq!['"'] + escape_quoted(s) + seq!['"']
    }
}

/// Convert an arbitrary name to a valid Typescript field name.
///
/// If the name contains special characters or if its first character
/// is a number it will be wrapped in quotes, with the quotes and backslashes
/// inside it escaped.
pub fn raw_name_to_ts_field(value: String) -> (r: String)
    ensures
        r@ == ts_field(value@),
{
    let v = chars_of(value.as_str());
    let mut valid_chars = true;
    let mut i: usize = 0;
    while i < v.len()
        invariant
            i <= v@.len(),
            valid_chars == forall|k: int| 0 <= k < i ==> is_ts_field_char(#[trigger] v@[k]),
        decreases v@.len() - i,
    {
        let c = v[i];
        let ok = char_is_alphanumeric(c) || c == '_' || c == '$';
        if !ok {
            valid_chars = false;
        }
        i = i + 1;
        assert(valid_chars == forall|k: int| 0 <= k < i ==> is_ts_field_char(#[trigger] v@[k])) by {
            if valid_chars {
                assert forall|k: int| 0 <= k < i implies is_ts_field_char(#[trigger] v@[k]) by {
                    if k == i - 1 {
                    }
                }
            }
        }
    }
    let does_not_start_with_digit = if v.len() == 0 {
        true
    } else {
        !char_is_numeric(v[0])
    };
    if valid_chars && does_not_start_with_digit {
        value
    } else {
        let mut r = String::new();
        push_char(&mut r, '"');
        let mut j: usize = 0;
        while j < v.len()
            invariant
                j <= v@.len(),
                v@ == value@,
                r@ == seq!['"'] + escape_quoted(v@.take(j as int)),
            decreases v@.len() - j,
        {
            let c = v[j];
            if c == '\\' || c == '"' {
                push_char(&mut r, '\\');
            }
            push_char(&mut r, c);
            proof {
                assert(v@.take(j as int + 1).drop_last() =~= v@.take(j as int));
            }
            j = j + 1;
            assert(r@ =~= seq!['"'] + escape_quoted(v@.take(j as int)));
        }
        push_char(&mut r, '"');
        assert(v@.take(v@.len() as int) =~= v@);
        r
    }
}

/// Removes every leading `r#` (as `str::trim_start_matches("r#")` does).
pub open spec fn strip_raw_prefix(s: Seq<char>) -> Seq<char>
    decreases s.len(),
{
    if s.len() >= 2 && s[0] == 'r' && s[1] == '#' {
        strip_raw_prefix(s.skip(2))
    } else {
        s
    }
}

/// Converts a rust identifier (as written, possibly raw) to a typescript identifier.
pub fn to_ts_ident(ident: &str) -> (r: String)
    ensures
        r@ == strip_raw_prefix(ident@),
{
    let v = chars_of(ident);
    let mut i: usize = 0;
    assert(v@.skip(0) =~= v@);
    while v.len() - i >= 2 && v[i] == 'r' && v[i + 1] == '#'
        invariant
            i <= v@.len(),
            strip_raw_prefix(v@) == strip_raw_prefix(v@.skip(i as int)),
        decreases v@.len() - i,
    {
        proof {
            let t = v@.skip(i as int);
            assert(t.skip(2) =~= v@.skip(i + 2));
        }
        i = i + 2;
    }
    let mut r = String::new();
    push_chars(&mut r, &v, i, v.len());
    assert(v@.subrange(i as int, v@.len() as int) =~= v@.skip(i as int));
    r
}

/// The JSDoc text for the given doc lines.
pub open spec fn jsdoc(docs: Seq<Seq<char>>) -> Seq<char> {
    if docs.len() == 0 {
        Seq::empty()
    } else if docs.len() == 1 && contains_char(docs[0], '\n') {
        "/**"@ + docs[0] + "*/\n"@
    } else {
        "/**\n"@ + jsdoc_lines(docs) + "\n */\n"@
    }
}

/// Each doc line prefixed by ` *`, separated by newlines.
pub open spec fn jsdoc_lines(docs: Seq<Seq<char>>) -> Seq<char>
    decreases docs.len(),
{
    if docs.len() == 0 {
        Seq::empty()
    } else if docs.len() == 1 {
        " *"@ + docs[0]
    } else {
        jsdoc_lines(docs.drop_last()) + "\n"@ + " *"@ + docs.last()
    }
}

/// The strings of a list, each by its characters.
pub open spec fn views(v: Seq<String>) -> Seq<Seq<char>> {
    v.map_values(|s: String| s@)
}

/// Formats the values of `#[doc = ".."]` attributes as a JSDoc comment:
/// nothing for no docs, a block comment kept as it is for a single
/// multi-line doc, one ` *` line per doc otherwise.
pub fn format_docs(docs: &Vec<String>) -> (r: String)
    ensures
        r@ == jsdoc(views(docs@)),
{
    let ghost d = views(docs@);
    if docs.len() == 0 {
        return String::new();
    }
    if docs.len() == 1 {
        let first = chars_of(docs[0].as_str());
        if has_char(&first, '\n') {
            let mut r = string_from("/**");
            push_str(&mut r, docs[0].as_str());
            push_str(&mut r, "*/\n");
            return r;
        }
    }
    let mut buffer = string_from("/**\n");
    let mut i: usize = 0;
    while i < docs.len()
        invariant
            d == views(docs@),
            1 <= docs@.len(),
            i <= docs@.len(),
            buffer@ == "/**\n"@ + jsdoc_lines(d.take(i as int)),
        decreases docs@.len() - i,
    {
        let ghost before = buffer@;
        if i > 0 {
            push_str(&mut buffer, "\n");
        }
        push_str(&mut buffer, " *");
        push_str(&mut buffer, docs[i].as_str());
        proof {
            let t = d.take(i as int + 1);
            assert(t.drop_last() =~= d.take(i as int));
            assert(t.last() == docs@[i as int]@);
            if i == 0 {
                assert(jsdoc_lines(d.take(0)) =~= Seq::<char>::empty());
                assert(before =~= "/**\n"@);
            }
        }
        i = i + 1;
        assert(buffer@ =~= "/**\n"@ + jsdoc_lines(d.take(i as int)));
    }
    push_str(&mut buffer, "\n */\n");
    assert(d.take(docs@.len() as int) =~= d);
    buffer
}

/// The warning about an unreadable attribute as the library gives it when
/// `serde` attributes are not read: it writes nothing and always succeeds.
/// The tool's derive, which reads them, prints its warnings itself.
pub fn print_warning(title: &str, content: &str, note: &str) -> (r: Result<(), ()>)
    ensures
        r is Ok,
{
    Ok(())
}

/// The value of one `#[doc = ..]` attribute.
pub enum DocValue {
    /// A string literal, with its value.
    Literal(String),
    /// Any other expression.
    Other,
}

/// A `#[doc = ..]` whose value is no string literal.
#[derive(Copy, Clone, Debug, PartialEq, Eq, Structural)]
pub struct NonLiteralDoc;

impl NonLiteralDoc {
    /// The text that reports this error.
    pub fn message(&self) -> (r: &'static str)
        ensures
            r@ == "doc  with non literal expression found"@,
    {
        "doc  with non literal expression found"
    }
}

/// The doc strings of the values, when all of them are literals.
pub open spec fn doc_strings(values: Seq<DocValue>) -> Option<Seq<Seq<char>>>
    decreases values.len(),
{
    if values.len() == 0 {
        Some(Seq::empty())
    } else {
        match (doc_strings(values.drop_last()), values.last()) {
            (Some(d), DocValue::Literal(s)) => Some(d.push(s@)),
            _ => None,
        }
    }
}

/// The JSDoc comment made from the values of a type's `#[doc = ..]`
/// attributes; an error when one of them is not a string literal.
pub fn parse_docs(values: &Vec<DocValue>) -> (r: Result<String, NonLiteralDoc>)
    ensures
        match doc_strings(values@) {
            Some(d) => r matches Ok(s) && s@ == jsdoc(d),
            None => r is Err,
        },
{
    let mut docs: Vec<String> = Vec::new();
    let mut i: usize = 0;
    while i < values.len()
        invariant
            i <= values@.len(),
            doc_strings(values@.take(i as int)) == Some(views(docs@)),
        decreases values@.len() - i,
    {
        proof {
            assert(values@.take(i + 1).drop_last() =~= values@.take(i as int));
        }
        match &values[i] {
            DocValue::Literal(s) => {
                let ghost before = docs@;
                docs.push(string_from(s.as_str()));
                proof {
                    assert(views(docs@) =~= views(before).push(s@));
                }
            },
            DocValue::Other => {
                proof {
                    lemma_doc_strings_none_extends(values@, i as int + 1);
                }
                return Err(NonLiteralDoc);
            },
        }
        i = i + 1;
    }
    proof {
        assert(values@.take(values@.len() as int) =~= values@);
    }
    Ok(format_docs(&docs))
}

proof fn lemma_doc_strings_none_extends(values: Seq<DocValue>, k: int)
    requires
        0 <= k <= values.len(),
        doc_strings(values.take(k)) is None,
    ensures
        doc_strings(values) is None,
    decreases values.len() - k,
{
    if k < values.len() {
        assert(values.take(k + 1).drop_last() =~= values.take(k));
        lemma_doc_strings_none_extends(values, k + 1);
    } else {
        assert(values.take(k) =~= values);
    }
}

/// An identifier made fit for TypeScript never starts with `r#`.
pub proof fn lemma_ts_ident_has_no_raw_prefix(s: Seq<char>)
    ensures
        !(strip_raw_prefix(s).len() >= 2 && strip_raw_prefix(s)[0] == 'r' && strip_raw_prefix(s)[1] == '#'),
    decreases s.len(),
{
    if s.len() >= 2 && s[0] == 'r' && s[1] == '#' {
        lemma_ts_ident_has_no_raw_prefix(s.skip(2));
    }
}

/// Every `"` in an escaped text has a `\` right before it, so the quoted
/// field name ends only at its closing quote; and a text without `"` or `\`
/// is its own escape.
pub proof fn lemma_escaped_quotes_are_preceded(s: Seq<char>)
    ensures
        forall|i: int| 0 <= i < escape_quoted(s).len() && #[trigger] escape_quoted(s)[i] == '"' ==> i > 0
            && escape_quoted(s)[i - 1] == '\\',
        (forall|k: int| 0 <= k < s.len() ==> #[trigger] s[k] != '"' && s[k] != '\\') ==> escape_quoted(s) == s,
    decreases s.len(),
{
    if s.len() > 0 {
        lemma_escaped_quotes_are_preceded(s.drop_last());
        let a = escape_quoted(s.drop_last());
        let c = s.last();
        let piece = if c == '\\' || c == '"' {
            seq!['\\', c]
        } else {
            seq![c]
        };
        let e = escape_quoted(s);
        assert(e == a + piece);
        assert forall|i: int| 0 <= i < e.len() && #[trigger] e[i] == '"' implies i > 0 && e[i - 1] == '\\' by {
            if i < a.len() {
                assert(a[i] == '"');
                assert(e[i - 1] == a[i - 1]);
            } else if i == a.len() {
                assert(piece[0] == '"');
                assert(false);
            } else {
                assert(e[i - 1] == piece[0]);
            }
        }
        if forall|k: int| 0 <= k < s.len() ==> #[trigger] s[k] != '"' && s[k] != '\\' {
            assert forall|k: int| 0 <= k < s.drop_last().len() implies #[trigger] s.drop_last()[k] != '"'
                && s.drop_last()[k] != '\\' by {
                assert(s.drop_last()[k] == s[k]);
            }
            assert(s[s.len() - 1] == c);
            assert(e =~= s);
        }
    }
}

/// A name fit to be a TypeScript field is written as it is; any other is
/// written in double quotes, with its text escaped in between.
pub proof fn lemma_field_names_quoted_only_when_needed(s: Seq<char>)
    ensures
        is_valid_ts_field(s) ==> ts_field(s) == s,
        !is_valid_ts_field(s) ==> ts_field(s).len() >= 2 && ts_field(s)[0] == '"' && ts_field(s).last() == '"'
            && ts_field(s).subrange(1, ts_field(s).len() - 1) == escape_quoted(s),
{
    if !is_valid_ts_field(s) {
        let t = ts_field(s);
        assert(t.subrange(1, t.len() - 1) =~= escape_quoted(s));
    }
}

} // verus!
