//! The texts that the `TS` impl of a derived type is made of: its name with
//! generics, its declarations, the file it is exported to and the name of
//! its export test.
use vstd::prelude::*;

use crate::path::export_file;
use crate::text::{
    join, joined, push_str, replace_all, replaced, str_equal, str_to_lowercase, string_from,
    string_seq_views, unicode_lowercase,
};

verus! {

/// The file a type is exported to: by `export_to` when given (a directory
/// when it ends with `/`), else `<name>.ts`.
pub open spec fn output_path_spec(export_to: Option<Seq<char>>, ts_name: Seq<char>) -> Seq<char> {
    match export_to {
        Some(d) => export_file(d, ts_name),
        None => ts_name + ".ts"@,
    }
}

/// Computes the file a type is exported to.
pub fn output_path(export_to: Option<&str>, ts_name: &str) -> (r: String)
    ensures
        r@ == output_path_spec(
            match export_to {
                Some(x) => Some(x@),
                None => None,
            },
            ts_name@,
        ),
{
    match export_to {
        Some(d) => crate::path::CustomPath::str_path(d, ts_name),
        None => {
            let mut s = string_from(ts_name);
            push_str(&mut s, ".ts");
            s
        },
    }
}

/// The name of a type with its generic parameters' names: `name<A, B>`, or
/// `name` alone when it has none.
pub open spec fn name_with_generics_spec(name: Seq<char>, generics: Seq<Seq<char>>) -> Seq<char> {
    if generics.len() == 0 {
        name
    } else {
        name + seq!['<'] + joined(generics, ", "@) + seq!['>']
    }
}

/// Writes the name of a type with its generic parameters' names.
pub fn name_with_generics(name: &str, generics: &Vec<String>) -> (r: String)
    ensures
        r@ == name_with_generics_spec(name@, string_seq_views(generics@)),
{
    if generics.len() == 0 {
        string_from(name)
    } else {
        let mut s = string_from(name);
        push_str(&mut s, "<");
        let j = join(generics, ", ");
        push_str(&mut s, j.as_str());
        push_str(&mut s, ">");
        proof {
            reveal_strlit("<");
            reveal_strlit(">");
            assert(s@ =~= name_with_generics_spec(name@, string_seq_views(generics@)));
        }
        s
    }
}

/// The type parameters that `#[ts(concrete(..))]` does not fix, in order.
pub open spec fn not_fixed(params: Seq<Seq<char>>, concrete: Seq<Seq<char>>) -> Seq<Seq<char>> {
    params.filter(|p: Seq<char>| !concrete.contains(p))
}

fn is_fixed(p: &str, concrete: &Vec<String>) -> (r: bool)
    ensures
        r == string_seq_views(concrete@).contains(p@),
{
    let mut i: usize = 0;
    while i < concrete.len()
        invariant
            i <= concrete@.len(),
            forall|j: int| 0 <= j < i ==> concrete@[j]@ != p@,
        decreases concrete@.len() - i,
    {
        if str_equal(concrete[i].as_str(), p) {
            assert(string_seq_views(concrete@)[i as int] == p@);
            return true;
        }
        i = i + 1;
    }
    assert forall|j: int| 0 <= j < concrete@.len() implies string_seq_views(concrete@)[j] != p@ by {
        assert(string_seq_views(concrete@)[j] == concrete@[j]@);
    }
    false
}

/// The type parameters that are not fixed to a concrete type.
pub fn type_params_not_fixed(params: &Vec<String>, concrete: &Vec<String>) -> (r: Vec<String>)
    ensures
        string_seq_views(r@) == not_fixed(string_seq_views(params@), string_seq_views(concrete@)),
{
    let ghost cv = string_seq_views(concrete@);
    let mut out: Vec<String> = Vec::new();
    let mut i: usize = 0;
    while i < params.len()
        invariant
            i <= params@.len(),
            cv == string_seq_views(concrete@),
            string_seq_views(out@) == not_fixed(string_seq_views(params@.take(i as int)), cv),
        decreases params@.len() - i,
    {
        let ghost pv = string_seq_views(params@.take(i + 1));
        proof {
            assert(pv.drop_last() =~= string_seq_views(params@.take(i as int)));
            assert(pv.last() == params@[i as int]@);
            reveal(Seq::filter);
        }
        if !is_fixed(params[i].as_str(), concrete) {
            let ghost o = out@;
            out.push(string_from(params[i].as_str()));
            proof {
                assert(string_seq_views(out@) =~= string_seq_views(o).push(params@[i as int]@));
            }
        }
        i = i + 1;
    }
    proof {
        assert(params@.take(params@.len() as int) =~= params@);
    }
    out
}

/// A type parameter as written in a declaration: its name, and the name of
/// its default type where it has one.
pub struct GenericParamText {
    pub name: String,
    pub default: Option<String>,
}

/// A generic parameter as written in a declaration: its name, then ` = ` and its default where it has one.
pub open spec fn param_text(p: GenericParamText) -> Seq<char> {
    match p.default {
        Some(d) => p.name@ + " = "@ + d@,
        None => p.name@,
    }
}

/// A generic parameter as written in a declaration: its name, then ` = ` and its default where it has one.
/// The generic parameters of a list, each as written in a declaration.
pub open spec fn param_texts(ps: Seq<GenericParamText>) -> Seq<Seq<char>> {
    ps.map_values(|p: GenericParamText| param_text(p))
}

/// The generics of a declaration: `<A, B = X>`, or nothing without type
/// parameters.
pub open spec fn generics_text(ps: Seq<GenericParamText>) -> Seq<char> {
    if ps.len() == 0 {
        Seq::empty()
    } else {
        seq!['<'] + joined(param_texts(ps), ", "@) + seq!['>']
    }
}

/// Writes the generics of a declaration.
pub fn format_generics(params: &Vec<GenericParamText>) -> (r: String)
    ensures
        r@ == generics_text(params@),
{
    if params.len() == 0 {
        return String::new();
    }
    let mut texts: Vec<String> = Vec::new();
    let mut i: usize = 0;
    while i < params.len()
        invariant
            i <= params@.len(),
            string_seq_views(texts@) == param_texts(params@.take(i as int)),
        decreases params@.len() - i,
    {
        let mut t = string_from(params[i].name.as_str());
        match &params[i].default {
            Some(d) => {
                push_str(&mut t, " = ");
                push_str(&mut t, d.as_str());
            },
            None => {},
        }
        let ghost o = texts@;
        texts.push(t);
        proof {
            assert(string_seq_views(texts@) =~= string_seq_views(o).push(param_text(params@[i as int])));
            assert(param_texts(params@.take(i + 1)) =~= param_texts(params@.take(i as int)).push(
                param_text(params@[i as int]),
            ));
        }
        i = i + 1;
    }
    proof {
        assert(params@.take(params@.len() as int) =~= params@);
    }
    let mut s = string_from("<");
    let j = join(&texts, ", ");
    push_str(&mut s, j.as_str());
    push_str(&mut s, ">");
    proof {
        reveal_strlit("<");
        reveal_strlit(">");
        assert(s@ =~= generics_text(params@));
    }
    s
}

/// A type alias declaration: `type <name><generics> = <inline>;`.
pub open spec fn decl_text(name: Seq<char>, generics: Seq<char>, inline: Seq<char>) -> Seq<char> {
    "type "@ + name + generics + " = "@ + inline + seq![';']
}

/// Writes a type alias declaration; `generics` is empty for the concrete one.
pub fn format_decl(name: &str, generics: &str, inline: &str) -> (r: String)
    ensures
        r@ == decl_text(name@, generics@, inline@),
{
    let mut s = string_from("type ");
    push_str(&mut s, name);
    push_str(&mut s, generics);
    push_str(&mut s, " = ");
    push_str(&mut s, inline);
    push_str(&mut s, ";");
    proof {
        reveal_strlit(";");
        assert(s@ =~= decl_text(name@, generics@, inline@));
    }
    s
}

/// The name of the test that exports a type: `export_bindings_` and the
/// lowercased Rust name without `r#`.
pub open spec fn export_test_name_spec(rust_ty: Seq<char>) -> Seq<char> {
    "export_bindings_"@ + replaced(unicode_lowercase(rust_ty), "r#"@, Seq::empty())
}

/// Computes the name of the export test of a type.
pub fn export_test_name(rust_ty: &str) -> (r: String)
    ensures
        r@ == export_test_name_spec(rust_ty@),
{
    let lower = str_to_lowercase(rust_ty);
    proof {
        reveal_strlit("r#");
        reveal_strlit("");
        assert(""@ =~= Seq::<char>::empty());
    }
    let stripped = replace_all(lower.as_str(), "r#", "");
    let mut s = string_from("export_bindings_");
    push_str(&mut s, stripped.as_str());
    s
}

/// The type parameters left free are exactly those that `concrete(..)` does
/// not fix: each one kept is a parameter not fixed, each parameter not fixed
/// is kept, and none is added.
pub proof fn lemma_free_params_are_the_unfixed(params: Seq<Seq<char>>, concrete: Seq<Seq<char>>, p: Seq<char>)
    ensures
        not_fixed(params, concrete).contains(p) <==> params.contains(p) && !concrete.contains(p),
        not_fixed(params, concrete).len() <= params.len(),
{
    let pred = |q: Seq<char>| !concrete.contains(q);
    params.filter_lemma(pred);
    if not_fixed(params, concrete).contains(p) {
        params.lemma_filter_contains_rev(pred, p);
        let i = choose|i: int| 0 <= i < params.filter(pred).len() && params.filter(pred)[i] == p;
        assert(pred(params.filter(pred)[i]));
    }
    if params.contains(p) && !concrete.contains(p) {
        let i = choose|i: int| 0 <= i < params.len() && params[i] == p;
        assert(pred(params[i]));
    }
}

/// Where a type is exported: `<name>.ts` without `export_to`; with a
/// directory (ending in `/`) the file `<name>.ts` in it; with any other path
/// exactly that file.
pub proof fn lemma_output_path_forms(export_to: Option<Seq<char>>, ts_name: Seq<char>)
    ensures
        export_to is None ==> output_path_spec(export_to, ts_name) == ts_name + ".ts"@,
        export_to matches Some(d) && d.len() > 0 && d.last() == '/' ==> output_path_spec(export_to, ts_name)
            == export_to->Some_0 + ts_name + ".ts"@,
        export_to matches Some(d) && !(d.len() > 0 && d.last() == '/') ==> output_path_spec(export_to, ts_name)
            == export_to->Some_0,
{
}

} // verus!
