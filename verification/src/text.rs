//! Character-level helpers shared by the naming and parsing code.
//!
//! Strings are modelled by their view, a `Seq<char>`. Unicode classification
//! and case mapping come from the standard library and are named below; the
//! ASCII-only conversions are written out and proved.
use vstd::prelude::*;
use vstd::string::StrSliceExecFns;

verus! {

/// Whether a character is an ASCII capital letter.
pub open spec fn is_ascii_upper(c: char) -> bool {
    'A' <= c && c <= 'Z'
}

/// Whether a character is an ASCII small letter.
pub open spec fn is_ascii_lower(c: char) -> bool {
    'a' <= c && c <= 'z'
}

/// Whether a character is an ASCII digit.
pub open spec fn is_ascii_digit(c: char) -> bool {
    '0' <= c && c <= '9'
}

/// Whether a character is ASCII.
pub open spec fn is_ascii_char(c: char) -> bool {
    (c as u32) < 0x80
}

/// `char::to_ascii_lowercase`: `A`..=`Z` become `a`..=`z`, every other char is kept.
pub open spec fn ascii_lower(c: char) -> char {
    if is_ascii_upper(c) {
        ((c as u32) + 32) as char
    } else {
        c
    }
}

/// `char::to_ascii_uppercase`: `a`..=`z` become `A`..=`Z`, every other char is kept.
pub open spec fn ascii_upper(c: char) -> char {
    if is_ascii_lower(c) {
        ((c as u32) - 32) as char
    } else {
        c
    }
}

/// `str::to_ascii_uppercase` on a whole string.
pub open spec fn ascii_upper_all(s: Seq<char>) -> Seq<char> {
    s.map_values(|c: char| ascii_upper(c))
}

/// Replaces every occurrence of `from` by `to`.
pub open spec fn replace_char(s: Seq<char>, from: char, to: char) -> Seq<char> {
    s.map_values(|c: char| if c == from { to } else { c })
}

/// The small letter of an ASCII capital; any other character unchanged.
pub fn char_to_ascii_lowercase(c: char) -> (r: char)
    ensures
        r == ascii_lower(c),
{
    if 'A' <= c && c <= 'Z' {
        let v: u8 = (c as u8) + 32;
        v as char
    } else {
        c
    }
}

/// The capital of an ASCII small letter; any other character unchanged.
pub fn char_to_ascii_uppercase(c: char) -> (r: char)
    ensures
        r == ascii_upper(c),
{
    if 'a' <= c && c <= 'z' {
        let v: u8 = (c as u8) - 32;
        v as char
    } else {
        c
    }
}

/// Whether every char of `s` is ASCII.
pub open spec fn is_ascii_seq(s: Seq<char>) -> bool {
    forall|k: int| 0 <= k < s.len() ==> is_ascii_char(#[trigger] s[k])
}

/// Whether `char::is_uppercase` holds of `c`: the ASCII capitals among ASCII
/// chars, the Unicode property (named below) for the others.
pub open spec fn is_uppercase_char(c: char) -> bool {
    if is_ascii_char(c) {
        is_ascii_upper(c)
    } else {
        unicode_is_uppercase(c)
    }
}

/// Whether `char::is_alphanumeric` holds of `c`: ASCII letters and digits
/// among ASCII chars, the Unicode property (named below) for the others.
pub open spec fn is_alphanumeric_char(c: char) -> bool {
    if is_ascii_char(c) {
        is_ascii_upper(c) || is_ascii_lower(c) || is_ascii_digit(c)
    } else {
        unicode_is_alphanumeric(c)
    }
}

/// Whether `char::is_numeric` holds of `c`: ASCII digits among ASCII chars,
/// the Unicode categories (named below) for the others.
pub open spec fn is_numeric_char(c: char) -> bool {
    if is_ascii_char(c) {
        is_ascii_digit(c)
    } else {
        unicode_is_numeric(c)
    }
}

/// The value of `char::is_uppercase` (the Unicode `Uppercase` property).
pub uninterp spec fn unicode_is_uppercase(c: char) -> bool;

/// The value of `char::is_alphanumeric` (Unicode `Alphabetic` or `Numeric`).
pub uninterp spec fn unicode_is_alphanumeric(c: char) -> bool;

/// The value of `char::is_numeric` (Unicode general categories `Nd`, `Nl`, `No`).
pub uninterp spec fn unicode_is_numeric(c: char) -> bool;

/// The value of `char::is_whitespace` (the Unicode `White_Space` property).
pub uninterp spec fn unicode_is_whitespace(c: char) -> bool;

/// The value of `str::to_lowercase` (full Unicode lowercase mapping).
pub uninterp spec fn unicode_lowercase(s: Seq<char>) -> Seq<char>;

/// The value of `str::to_uppercase` (full Unicode uppercase mapping).
pub uninterp spec fn unicode_uppercase(s: Seq<char>) -> Seq<char>;

/// Calls `char::is_uppercase`; the result is the Unicode property, named
/// above, which among ASCII chars holds of `A`..=`Z` alone.
#[verifier::external_body]
pub(crate) fn char_is_uppercase(c: char) -> (r: bool)
    ensures
        r == unicode_is_uppercase(c),
        is_ascii_char(c) ==> (r <==> is_ascii_upper(c)),
{
    c.is_uppercase()
}

/// Calls `char::is_alphanumeric`; the result is the Unicode property, named
/// above, which among ASCII chars holds of the letters and digits alone.
#[verifier::external_body]
pub(crate) fn char_is_alphanumeric(c: char) -> (r: bool)
    ensures
        r == unicode_is_alphanumeric(c),
        is_ascii_char(c) ==> (r <==> (is_ascii_upper(c) || is_ascii_lower(c) || is_ascii_digit(c))),
{
    c.is_alphanumeric()
}

/// Calls `char::is_whitespace`; the result is the Unicode property, named
/// above, which among ASCII chars holds of the space and `\t`..=`\r` alone.
#[verifier::external_body]
pub(crate) fn char_is_whitespace(c: char) -> (r: bool)
    ensures
        r == unicode_is_whitespace(c),
        is_ascii_char(c) ==> (r <==> (c == ' ' || ('\t' <= c && c <= '\r'))),
{
    c.is_whitespace()
}

/// Calls `char::is_numeric`; the result is the Unicode property, named
/// above, which among ASCII chars holds of `0`..=`9` alone.
#[verifier::external_body]
pub(crate) fn char_is_numeric(c: char) -> (r: bool)
    ensures
        r == unicode_is_numeric(c),
        is_ascii_char(c) ==> (r <==> is_ascii_digit(c)),
{
    c.is_numeric()
}

/// Calls `str::to_lowercase`; the result is the Unicode mapping of the
/// argument, named above, which maps an ASCII string char by char to
/// `char::to_ascii_lowercase`.
#[verifier::external_body]
pub(crate) fn str_to_lowercase(s: &str) -> (r: String)
    ensures
        r@ == unicode_lowercase(s@),
        is_ascii_seq(s@) ==> r@ == s@.map_values(|c: char| ascii_lower(c)),
{
    s.to_lowercase()
}

/// Calls `str::to_uppercase`; the result is the Unicode mapping of the
/// argument, named above, which maps an ASCII string char by char to
/// `char::to_ascii_uppercase`.
#[verifier::external_body]
pub(crate) fn str_to_uppercase(s: &str) -> (r: String)
    ensures
        r@ == unicode_uppercase(s@),
        is_ascii_seq(s@) ==> r@ == ascii_upper_all(s@),
{
    s.to_uppercase()
}

/// Calls `String::push`, which appends one char.
#[verifier::external_body]
pub(crate) fn push_char(s: &mut String, c: char)
    ensures
        final(s)@ == old(s)@.push(c),
{
    s.push(c)
}

/// The chars of `s`, in order.
pub fn chars_of(s: &str) -> (v: Vec<char>)
    ensures
        v@ == s@,
{
    let n = s.unicode_len();
    let mut v: Vec<char> = Vec::new();
    let mut i: usize = 0;
    while i < n
        invariant
            n == s@.len(),
            i <= n,
            v@ == s@.take(i as int),
        decreases n - i,
    {
        let c = s.get_char(i);
        v.push(c);
        i = i + 1;
        assert(v@ =~= s@.take(i as int));
    }
    assert(v@ =~= s@);
    v
}

/// Appends the chars `v[from..to]` to `out`.
pub fn push_chars(out: &mut String, v: &Vec<char>, from: usize, to: usize)
    requires
        from <= to <= v@.len(),
    ensures
        final(out)@ == old(out)@ + v@.subrange(from as int, to as int),
{
    let mut i = from;
    while i < to
        invariant
            from <= i <= to <= v@.len(),
            out@ == old(out)@ + v@.subrange(from as int, i as int),
        decreases to - i,
    {
        push_char(out, v[i]);
        i = i + 1;
        assert(out@ =~= old(out)@ + v@.subrange(from as int, i as int));
    }
}

/// A `String` holding exactly the chars of `v`.
pub fn string_of(v: &Vec<char>) -> (s: String)
    ensures
        s@ == v@,
{
    let mut s = String::new();
    push_chars(&mut s, v, 0, v.len());
    assert(v@.subrange(0, v@.len() as int) =~= v@);
    s
}

/// Appends all chars of `t` to `out`.
pub fn push_str(out: &mut String, t: &str)
    ensures
        final(out)@ == old(out)@ + t@,
{
    let v = chars_of(t);
    push_chars(out, &v, 0, v.len());
    assert(v@.subrange(0, v@.len() as int) =~= t@);
}

/// An owned copy of `t`.
pub fn string_from(t: &str) -> (s: String)
    ensures
        s@ == t@,
{
    let mut s = String::new();
    push_str(&mut s, t);
    assert(Seq::<char>::empty() + t@ =~= t@);
    s
}

/// Char-wise equality of two strings.
pub fn str_equal(a: &str, b: &str) -> (r: bool)
    ensures
        r == (a@ == b@),
{
    let va = chars_of(a);
    let vb = chars_of(b);
    if va.len() != vb.len() {
        return false;
    }
    let mut i: usize = 0;
    while i < va.len()
        invariant
            va@ == a@,
            vb@ == b@,
            va@.len() == vb@.len(),
            i <= va@.len(),
            forall|j: int| 0 <= j < i ==> va@[j] == vb@[j],
        decreases va@.len() - i,
    {
        if va[i] != vb[i] {
            return false;
        }
        i = i + 1;
    }
    assert(va@ =~= vb@);
    true
}

/// The view of an optional string.
pub open spec fn opt_view(s: Option<String>) -> Option<Seq<char>> {
    match s {
        Some(x) => Some(x@),
        None => None,
    }
}

/// Whether `c` occurs in `s`.
pub open spec fn contains_char(s: Seq<char>, c: char) -> bool {
    exists|i: int| 0 <= i < s.len() && s[i] == c
}

/// Whether `c` occurs in `v`.
pub fn has_char(v: &Vec<char>, c: char) -> (r: bool)
    ensures
        r == contains_char(v@, c),
{
    let mut i: usize = 0;
    while i < v.len()
        invariant
            i <= v@.len(),
            forall|j: int| 0 <= j < i ==> v@[j] != c,
        decreases v@.len() - i,
    {
        if v[i] == c {
            return true;
        }
        i = i + 1;
    }
    false
}

/// The strings of a list, each by its characters.
pub open spec fn string_seq_views(v: Seq<String>) -> Seq<Seq<char>> {
    v.map_values(|s: String| s@)
}

/// The parts with `sep` between each two of them, as `[String]::join` gives.
pub open spec fn joined(parts: Seq<Seq<char>>, sep: Seq<char>) -> Seq<char>
    decreases parts.len(),
{
    if parts.len() == 0 {
        Seq::empty()
    } else if parts.len() == 1 {
        parts[0]
    } else {
        joined(parts.drop_last(), sep) + sep + parts.last()
    }
}

/// Joins the strings with `sep` between each two of them.
pub fn join(parts: &Vec<String>, sep: &str) -> (r: String)
    ensures
        r@ == joined(string_seq_views(parts@), sep@),
{
    let mut out = String::new();
    let mut i: usize = 0;
    while i < parts.len()
        invariant
            i <= parts@.len(),
            out@ == joined(string_seq_views(parts@.take(i as int)), sep@),
        decreases parts@.len() - i,
    {
        let ghost before = out@;
        if i > 0 {
            push_str(&mut out, sep);
        }
        push_str(&mut out, parts[i].as_str());
        proof {
            let t = string_seq_views(parts@.take(i + 1));
            assert(t.drop_last() =~= string_seq_views(parts@.take(i as int)));
            assert(t.last() == parts@[i as int]@);
            if i == 0 {
                assert(t =~= seq![parts@[0]@]);
                assert(before =~= Seq::<char>::empty());
                assert(out@ =~= parts@[0]@);
            }
        }
        i = i + 1;
    }
    assert(parts@.take(parts@.len() as int) =~= parts@);
    out
}

/// `s` with every match of `from` (found left to right, not overlapping)
/// replaced by `to`, as `str::replace` gives for a non-empty pattern.
pub open spec fn replaced(s: Seq<char>, from: Seq<char>, to: Seq<char>) -> Seq<char>
    decreases s.len(),
{
    if from.len() == 0 || s.len() < from.len() {
        s
    } else if s.take(from.len() as int) == from {
        to + replaced(s.skip(from.len() as int), from, to)
    } else {
        seq![s[0]] + replaced(s.skip(1), from, to)
    }
}

/// Replaces every match of the non-empty `from` in `s` by `to`.
pub fn replace_all(s: &str, from: &str, to: &str) -> (r: String)
    requires
        from@.len() > 0,
    ensures
        r@ == replaced(s@, from@, to@),
{
    let v = chars_of(s);
    let f = chars_of(from);
    let n = v.len();
    let m = f.len();
    let mut out = String::new();
    let mut i: usize = 0;
    proof {
        assert(v@.skip(0) =~= v@);
        assert(out@ + replaced(v@, f@, to@) =~= replaced(v@, f@, to@));
    }
    while i < n
        invariant
            v@ == s@,
            f@ == from@,
            n == v@.len(),
            m == f@.len(),
            m > 0,
            i <= n,
            out@ + replaced(v@.skip(i as int), f@, to@) == replaced(v@, f@, to@),
        decreases n - i,
    {
        let ghost rest = v@.skip(i as int);
        if n - i < m {
            proof {
                assert(replaced(rest, f@, to@) == rest);
                assert(v@.skip(n as int) =~= Seq::<char>::empty());
                assert(replaced(v@.skip(n as int), f@, to@) == Seq::<char>::empty());
            }
            push_chars(&mut out, &v, i, n);
            proof {
                assert(v@.subrange(i as int, n as int) =~= rest);
                assert(out@ + Seq::<char>::empty() =~= out@);
            }
            i = n;
        } else {
            let mut k: usize = 0;
            while k < m && v[i + k] == f[k]
                invariant
                    i + m <= n,
                    n == v@.len(),
                    m == f@.len(),
                    k <= m,
                    forall|x: int| 0 <= x < k ==> v@[i + x] == f@[x],
                decreases m - k,
            {
                k = k + 1;
            }
            if k == m {
                assert(rest.take(m as int) =~= f@);
                assert(rest.skip(m as int) =~= v@.skip(i + m));
                let ghost before = out@;
                push_str(&mut out, to);
                assert(before + (to@ + replaced(rest.skip(m as int), f@, to@)) =~= out@ + replaced(
                    v@.skip(i + m),
                    f@,
                    to@,
                ));
                i = i + m;
            } else {
                assert(rest.take(m as int)[k as int] != f@[k as int]);
                assert(rest.take(m as int) != f@);
                assert(rest.skip(1) =~= v@.skip(i + 1));
                let ghost before = out@;
                push_char(&mut out, v[i]);
                assert(before + (seq![rest[0]] + replaced(rest.skip(1), f@, to@)) =~= out@ + replaced(
                    v@.skip(i + 1),
                    f@,
                    to@,
                ));
                i = i + 1;
            }
        }
    }
    proof {
        assert(v@.skip(n as int) =~= Seq::<char>::empty());
        assert(out@ + Seq::<char>::empty() =~= out@);
    }
    out
}

/// `s` without the leading chars for which `p` holds.
pub open spec fn trim_start_by(s: Seq<char>, p: spec_fn(char) -> bool) -> Seq<char>
    decreases s.len(),
{
    if s.len() > 0 && p(s[0]) {
        trim_start_by(s.drop_first(), p)
    } else {
        s
    }
}

/// `s` without the trailing chars for which `p` holds.
pub open spec fn trim_end_by(s: Seq<char>, p: spec_fn(char) -> bool) -> Seq<char>
    decreases s.len(),
{
    if s.len() > 0 && p(s.last()) {
        trim_end_by(s.drop_last(), p)
    } else {
        s
    }
}

/// `s` without leading and trailing whitespace, as `str::trim` gives.
pub open spec fn trimmed(s: Seq<char>) -> Seq<char> {
    trim_end_by(trim_start_by(s, |c: char| unicode_is_whitespace(c)), |c: char| unicode_is_whitespace(c))
}

/// The chars that `trim_matches(['{', '}', ' '])` removes.
pub open spec fn is_brace_or_space(c: char) -> bool {
    c == '{' || c == '}' || c == ' '
}

/// `s` without leading and trailing braces and spaces.
pub open spec fn brace_trimmed(s: Seq<char>) -> Seq<char> {
    trim_end_by(trim_start_by(s, |c: char| is_brace_or_space(c)), |c: char| is_brace_or_space(c))
}

proof fn lemma_trim_start_skip(s: Seq<char>, p: spec_fn(char) -> bool, i: int)
    requires
        0 <= i <= s.len(),
        forall|j: int| 0 <= j < i ==> p(#[trigger] s[j]),
        i < s.len() ==> !p(s[i]),
    ensures
        trim_start_by(s, p) == s.skip(i),
    decreases i,
{
    if i == 0 {
        assert(s.skip(0) =~= s);
    } else {
        lemma_trim_start_skip(s.drop_first(), p, i - 1);
        assert(s.drop_first().skip(i - 1) =~= s.skip(i));
    }
}

proof fn lemma_trim_end_take(s: Seq<char>, p: spec_fn(char) -> bool, i: int)
    requires
        0 <= i <= s.len(),
        forall|j: int| i <= j < s.len() ==> p(#[trigger] s[j]),
        i > 0 ==> !p(s[i - 1]),
    ensures
        trim_end_by(s, p) == s.take(i),
    decreases s.len() - i,
{
    if i == s.len() {
        assert(s.take(i) =~= s);
    } else {
        lemma_trim_end_take(s.drop_last(), p, i);
        assert(s.drop_last().take(i) =~= s.take(i));
    }
}

/// A copy of `s` without leading and trailing whitespace.
pub fn trim(s: &str) -> (r: String)
    ensures
        r@ == trimmed(s@),
{
    let v = chars_of(s);
    let n = v.len();
    let mut a: usize = 0;
    while a < n && char_is_whitespace(v[a])
        invariant
            a <= n,
            n == v@.len(),
            forall|j: int| 0 <= j < a ==> unicode_is_whitespace(#[trigger] v@[j]),
        decreases n - a,
    {
        a = a + 1;
    }
    let mut b: usize = n;
    while b > a && char_is_whitespace(v[b - 1])
        invariant
            a <= b <= n,
            n == v@.len(),
            forall|j: int| b <= j < n ==> unicode_is_whitespace(#[trigger] v@[j]),
        decreases b - a,
    {
        b = b - 1;
    }
    let r = string_of_range(&v, a, b);
    proof {
        let p = |c: char| unicode_is_whitespace(c);
        lemma_trim_start_skip(v@, p, a as int);
        let t = v@.skip(a as int);
        lemma_trim_end_take(t, p, b - a);
        assert(t.take(b - a) =~= v@.subrange(a as int, b as int));
    }
    r
}

/// A copy of `s` without leading and trailing braces and spaces.
pub fn trim_braces(s: &str) -> (r: String)
    ensures
        r@ == brace_trimmed(s@),
{
    let v = chars_of(s);
    let n = v.len();
    let mut a: usize = 0;
    while a < n && (v[a] == '{' || v[a] == '}' || v[a] == ' ')
        invariant
            a <= n,
            n == v@.len(),
            forall|j: int| 0 <= j < a ==> is_brace_or_space(#[trigger] v@[j]),
        decreases n - a,
    {
        a = a + 1;
    }
    let mut b: usize = n;
    while b > a && (v[b - 1] == '{' || v[b - 1] == '}' || v[b - 1] == ' ')
        invariant
            a <= b <= n,
            n == v@.len(),
            forall|j: int| b <= j < n ==> is_brace_or_space(#[trigger] v@[j]),
        decreases b - a,
    {
        b = b - 1;
    }
    let r = string_of_range(&v, a, b);
    proof {
        let p = |c: char| is_brace_or_space(c);
        lemma_trim_start_skip(v@, p, a as int);
        let t = v@.skip(a as int);
        lemma_trim_end_take(t, p, b - a);
        assert(t.take(b - a) =~= v@.subrange(a as int, b as int));
    }
    r
}

/// A `String` holding the chars `v[from..to]`.
pub fn string_of_range(v: &Vec<char>, from: usize, to: usize) -> (s: String)
    requires
        from <= to <= v@.len(),
    ensures
        s@ == v@.subrange(from as int, to as int),
{
    let mut s = String::new();
    push_chars(&mut s, v, from, to);
    assert(Seq::<char>::empty() + v@.subrange(from as int, to as int) =~= v@.subrange(
        from as int,
        to as int,
    ));
    s
}

} // verus!
