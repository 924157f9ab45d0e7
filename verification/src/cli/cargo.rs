//! The `cargo test` run that exports the bindings.
use vstd::prelude::*;

use super::config::{merged_config, ExportConfig};
use crate::text::{push_str, string_from};

verus! {

/// The strings of a list, each by its characters.
pub open spec fn views(v: Seq<String>) -> Seq<Seq<char>> {
    v.map_values(|s: String| s@)
}

/// `--features ts-rs/<name>` when `on`, nothing otherwise.
pub open spec fn feature_args(on: bool, name: Seq<char>) -> Seq<Seq<char>> {
    if on {
        seq!["--features"@, "ts-rs/"@ + name]
    } else {
        Seq::empty()
    }
}

/// The arguments given to `cargo` for the export run: the export tests with
/// the export and metadata features, one feature per option set, and either
/// `-- --nocapture` or `--quiet`.
pub open spec fn cargo_args(cfg: ExportConfig) -> Seq<Seq<char>> {
    seq![
        "test"@,
        "export_bindings_"@,
        "--features"@,
        "ts-rs/export"@,
        "--features"@,
        "ts-rs/generate-metadata"@,
    ] + feature_args(cfg.no_warnings, "no-serde-warnings"@) + feature_args(
        cfg.esm_imports,
        "import-esm"@,
    ) + feature_args(cfg.format, "format"@) + if cfg.no_capture {
        seq!["--"@, "--nocapture"@]
    } else {
        seq!["--quiet"@]
    }
}

fn push_feature(args: &mut Vec<String>, on: bool, name: &str)
    ensures
        views(final(args)@) == views(old(args)@) + feature_args(on, name@),
{
    if on {
        let mut f = string_from("ts-rs/");
        push_str(&mut f, name);
        args.push(string_from("--features"));
        args.push(f);
        assert(views(final(args)@) =~= views(old(args)@) + feature_args(on, name@));
    } else {
        assert(views(args@) =~= views(old(args)@) + feature_args(on, name@));
    }
}

fn push_arg(args: &mut Vec<String>, a: &str)
    ensures
        views(final(args)@) == views(old(args)@).push(a@),
{
    args.push(string_from(a));
    assert(views(final(args)@) =~= views(old(args)@).push(a@));
}

/// The arguments of the `cargo` run that exports the bindings.
pub fn invoke_args(cfg: &ExportConfig) -> (r: Vec<String>)
    ensures
        views(r@) == cargo_args(*cfg),
{
    let mut args: Vec<String> = Vec::new();
    push_arg(&mut args, "test");
    push_arg(&mut args, "export_bindings_");
    push_arg(&mut args, "--features");
    push_arg(&mut args, "ts-rs/export");
    push_arg(&mut args, "--features");
    push_arg(&mut args, "ts-rs/generate-metadata");
    let ghost base = views(args@);
    push_feature(&mut args, cfg.no_warnings, "no-serde-warnings");
    push_feature(&mut args, cfg.esm_imports, "import-esm");
    push_feature(&mut args, cfg.format, "format");
    let ghost with_features = views(args@);
    if cfg.no_capture {
        push_arg(&mut args, "--");
        push_arg(&mut args, "--nocapture");
    } else {
        push_arg(&mut args, "--quiet");
    }
    assert(views(args@) =~= cargo_args(*cfg));
    args
}

/// `key:value`.
pub open spec fn override_entry(k: Seq<char>, v: Seq<char>) -> Seq<char> {
    k + ":"@ + v
}

/// The value of `TS_RS_INTERNAL_OVERRIDE`: the `key:value` pairs joined by `;`.
pub open spec fn overrides_text(pairs: Seq<(String, String)>) -> Seq<char>
    decreases pairs.len(),
{
    if pairs.len() == 0 {
        Seq::empty()
    } else if pairs.len() == 1 {
        override_entry(pairs[0].0@, pairs[0].1@)
    } else {
        overrides_text(pairs.drop_last()) + ";"@ + override_entry(pairs.last().0@, pairs.last().1@)
    }
}

/// The value of `TS_RS_INTERNAL_OVERRIDE` for the type overrides, in the
/// order given.
pub fn overrides_value(pairs: &Vec<(String, String)>) -> (r: String)
    ensures
        r@ == overrides_text(pairs@),
{
    proof {
        reveal_strlit(":");
    }
    let mut acc = String::new();
    let mut i: usize = 0;
    while i < pairs.len()
        invariant
            i <= pairs@.len(),
            acc@ == overrides_text(pairs@.take(i as int)),
            (acc@.len() == 0) == (i == 0),
        decreases pairs@.len() - i,
    {
        let ghost before = acc@;
        if i > 0 {
            push_str(&mut acc, ";");
        }
        push_str(&mut acc, pairs[i].0.as_str());
        push_str(&mut acc, ":");
        push_str(&mut acc, pairs[i].1.as_str());
        proof {
            reveal_strlit(":");
            assert(acc@.len() > 0);
            let t = pairs@.take(i as int + 1);
            assert(t.drop_last() =~= pairs@.take(i as int));
            assert(t.last() == pairs@[i as int]);
            if i == 0 {
                assert(before =~= Seq::<char>::empty());
                assert(t.len() == 1);
                assert(t[0] == pairs@[0]);
            }
        }
        i = i + 1;
        assert(acc@ =~= overrides_text(pairs@.take(i as int)));
    }
    assert(pairs@.take(pairs@.len() as int) =~= pairs@);
    acc
}

proof fn lemma_concat_contains(a: Seq<Seq<char>>, b: Seq<Seq<char>>, x: Seq<char>)
    ensures
        (a + b).contains(x) <==> a.contains(x) || b.contains(x),
{
    if a.contains(x) {
        let i = choose|i: int| 0 <= i < a.len() && a[i] == x;
        assert((a + b)[i] == x);
    }
    if b.contains(x) {
        let i = choose|i: int| 0 <= i < b.len() && b[i] == x;
        assert((a + b)[a.len() + i] == x);
    }
    if (a + b).contains(x) {
        let i = choose|i: int| 0 <= i < (a + b).len() && (a + b)[i] == x;
        if i < a.len() {
            assert(a[i] == x);
        } else {
            assert(b[i - a.len()] == x);
        }
    }
}

/// Each feature of the export run follows its own option: `ts-rs/import-esm`
/// is asked for exactly when ES module imports are, `ts-rs/format` exactly
/// when formatting is, `ts-rs/no-serde-warnings` exactly when warnings are
/// off, whatever the other options; the export and metadata features always
/// are; and the output is shown (`--nocapture`) or silenced (`--quiet`) as
/// asked.
pub proof fn lemma_each_feature_follows_its_option(cfg: ExportConfig)
    ensures
        cargo_args(cfg).contains("ts-rs/import-esm"@) <==> cfg.esm_imports,
        cargo_args(cfg).contains("ts-rs/format"@) <==> cfg.format,
        cargo_args(cfg).contains("ts-rs/no-serde-warnings"@) <==> cfg.no_warnings,
        cargo_args(cfg).contains("ts-rs/export"@),
        cargo_args(cfg).contains("ts-rs/generate-metadata"@),
        cargo_args(cfg).contains("--nocapture"@) <==> cfg.no_capture,
        cargo_args(cfg).contains("--quiet"@) <==> !cfg.no_capture,
{
    reveal_strlit("test");
    reveal_strlit("export_bindings_");
    reveal_strlit("--features");
    reveal_strlit("ts-rs/export");
    reveal_strlit("ts-rs/generate-metadata");
    reveal_strlit("ts-rs/");
    reveal_strlit("no-serde-warnings");
    reveal_strlit("import-esm");
    reveal_strlit("format");
    reveal_strlit("--");
    reveal_strlit("--nocapture");
    reveal_strlit("--quiet");
    reveal_strlit("ts-rs/import-esm");
    reveal_strlit("ts-rs/format");
    reveal_strlit("ts-rs/no-serde-warnings");
    let esm = "ts-rs/import-esm"@;
    let fmt = "ts-rs/format"@;
    let nsw = "ts-rs/no-serde-warnings"@;
    assert("ts-rs/"@ + "import-esm"@ =~= esm);
    assert("ts-rs/"@ + "format"@ =~= fmt);
    assert("ts-rs/"@ + "no-serde-warnings"@ =~= nsw);
    // words of equal length differ at some place
    assert(esm[0] != "export_bindings_"@[0]);
    assert(fmt[6] != "ts-rs/export"@[6]);
    assert(nsw[6] != "ts-rs/generate-metadata"@[6]);
    let base = seq![
        "test"@,
        "export_bindings_"@,
        "--features"@,
        "ts-rs/export"@,
        "--features"@,
        "ts-rs/generate-metadata"@,
    ];
    let w = feature_args(cfg.no_warnings, "no-serde-warnings"@);
    let e = feature_args(cfg.esm_imports, "import-esm"@);
    let f = feature_args(cfg.format, "format"@);
    let tail = if cfg.no_capture {
        seq!["--"@, "--nocapture"@]
    } else {
        seq!["--quiet"@]
    };
    assert(cargo_args(cfg) == base + w + e + f + tail);
    let xs = seq![esm, fmt, nsw, "ts-rs/export"@, "ts-rs/generate-metadata"@, "--nocapture"@, "--quiet"@];
    assert forall|k: int| 0 <= k < xs.len() implies {
        let x = #[trigger] xs[k];
        cargo_args(cfg).contains(x) <==> (base.contains(x) || w.contains(x) || e.contains(x) || f.contains(x)
            || tail.contains(x))
    } by {
        let x = xs[k];
        lemma_concat_contains(base + w + e + f, tail, x);
        lemma_concat_contains(base + w + e, f, x);
        lemma_concat_contains(base + w, e, x);
        lemma_concat_contains(base, w, x);
    }
    assert(xs[0] == esm);
    assert(xs[1] == fmt);
    assert(xs[2] == nsw);
    assert(xs[3] == "ts-rs/export"@);
    assert(xs[4] == "ts-rs/generate-metadata"@);
    assert(xs[5] == "--nocapture"@);
    assert(xs[6] == "--quiet"@);
    assert(base[3] == "ts-rs/export"@);
    assert(base[5] == "ts-rs/generate-metadata"@);
    if cfg.esm_imports {
        assert(e[1] == esm);
    }
    if cfg.format {
        assert(f[1] == fmt);
    }
    if cfg.no_warnings {
        assert(w[1] == nsw);
    }
    let nc = "--nocapture"@;
    let q = "--quiet"@;
    assert(nc.len() == 11 && q.len() == 7);
    assert(!base.contains(nc) && !base.contains(q));
    assert(!w.contains(nc) && !w.contains(q));
    assert(!e.contains(nc) && !e.contains(q));
    assert(!f.contains(nc) && !f.contains(q));
    if cfg.no_capture {
        assert(tail[1] == nc);
        assert(!tail.contains(q));
    } else {
        assert(tail[0] == q);
        assert(!tail.contains(nc));
    }
}

/// The export run asks for a feature when the command line or the config
/// file turns its option on, and only then: options combine before the run.
pub proof fn lemma_run_follows_both_sources(a: ExportConfig, b: ExportConfig, r: ExportConfig)
    requires
        merged_config(a, b, r),
    ensures
        cargo_args(r).contains("ts-rs/import-esm"@) <==> a.esm_imports || b.esm_imports,
        cargo_args(r).contains("ts-rs/format"@) <==> a.format || b.format,
        cargo_args(r).contains("ts-rs/no-serde-warnings"@) <==> a.no_warnings || b.no_warnings,
        cargo_args(r).contains("--nocapture"@) <==> a.no_capture || b.no_capture,
{
    lemma_each_feature_follows_its_option(r);
}

} // verus!
