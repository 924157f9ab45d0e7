use std::collections::HashMap;

use ts_rs::cli::cargo::{invoke_args, overrides_value};
use ts_rs::cli::config::{Args, Cli, ConfigError, ExportConfig};
use ts_rs::cli::metadata::{Metadata, MetadataError, FILE_NAME};
use ts_rs::cli::path::{normalize, Component};

fn show(c: &Component) -> String {
    match c {
        Component::Prefix(p) => format!("prefix:{p}"),
        Component::RootDir => "/".to_string(),
        Component::CurDir => ".".to_string(),
        Component::ParentDir => "..".to_string(),
        Component::Normal(n) => n.clone(),
    }
}

fn normal(s: &str) -> Component {
    Component::Normal(s.to_string())
}

fn shown(v: &[Component]) -> Vec<String> {
    v.iter().map(show).collect()
}

fn sorted(mut v: Vec<String>) -> Vec<String> {
    v.sort();
    v
}

#[test]
fn metadata_groups_by_typescript_name() {
    let m = Metadata::try_from("User,User,bindings/User.ts\nRole,Role,bindings/Role.ts\n").ok().unwrap();
    assert!(!m.is_empty());
    assert!(!m.has_naming_collisions());
    assert!(m.report_naming_collisions().is_empty());
    assert_eq!(
        sorted(m.export_paths()),
        vec!["bindings/Role.ts".to_string(), "bindings/User.ts".to_string()]
    );
}

#[test]
fn metadata_reports_collisions() {
    let text = "User,crate_a::User,a/User.ts\nUser,crate_b::User,b/User.ts\nRole,Role,Role.ts";
    let m = Metadata::try_from(text).ok().unwrap();
    assert!(m.has_naming_collisions());
    let report = m.report_naming_collisions();
    assert_eq!(report.len(), 1);
    assert_eq!(report[0].ts_name, "User");
    let mut names: Vec<String> = report[0].entries.iter().map(|e| e.rust_name.clone()).collect();
    names.sort();
    assert_eq!(names, vec!["crate_a::User".to_string(), "crate_b::User".to_string()]);
    assert_eq!(sorted(m.export_paths()).len(), 3);
}

#[test]
fn repeated_lines_are_no_collision() {
    let m = Metadata::try_from("User,User,User.ts\nUser,User,User.ts\n").ok().unwrap();
    assert!(!m.has_naming_collisions());
    assert_eq!(m.export_paths(), vec!["User.ts".to_string()]);
}

#[test]
fn empty_metadata() {
    let m = Metadata::try_from("").ok().unwrap();
    assert!(m.is_empty());
    assert!(!m.has_naming_collisions());
    assert!(m.export_paths().is_empty());
}

#[test]
fn metadata_with_crlf_and_commas_in_the_path() {
    let m = Metadata::try_from("A,A,dir/a,b.ts\r\nB,B,b.ts").ok().unwrap();
    assert_eq!(sorted(m.export_paths()), vec!["b.ts".to_string(), "dir/a,b.ts".to_string()]);
}

#[test]
fn metadata_errors() {
    let e = Metadata::try_from("User\n").err().unwrap();
    assert_eq!(e, MetadataError::InvalidFile);
    assert_eq!(e.message(), "Invalid metadata file");
    let e = Metadata::try_from("User,User\n").err().unwrap();
    assert_eq!(e, MetadataError::InvalidEntry);
    assert_eq!(e.message(), "Invalid metadata entry");
    assert_eq!(Metadata::try_from("A,A,a.ts\nbroken\nB,B").err(), Some(MetadataError::InvalidFile));
    assert_eq!(Metadata::try_from("\n").err(), Some(MetadataError::InvalidFile));
    assert_eq!(FILE_NAME, "ts_rs.meta");
}

#[test]
fn normalize_resolves_dots() {
    let comps = vec![
        Component::RootDir,
        normal("home"),
        Component::CurDir,
        normal("me"),
        Component::ParentDir,
        normal("project"),
        normal("bindings"),
    ];
    let out = normalize(comps).ok().unwrap();
    assert_eq!(shown(&out), vec!["/", "home", "project", "bindings"]);
}

#[test]
fn normalize_to_nothing_gives_dot() {
    let out = normalize(vec![normal("a"), Component::ParentDir]).ok().unwrap();
    assert_eq!(shown(&out), vec!["."]);
    let out = normalize(vec![]).ok().unwrap();
    assert_eq!(shown(&out), vec!["."]);
}

#[test]
fn normalize_refuses_going_above_the_start() {
    let err = normalize(vec![Component::ParentDir, normal("a")]).err().unwrap();
    assert_eq!(err.message(), "Invalid path");
}

#[test]
fn normalizing_twice_changes_nothing() {
    let comps = vec![Component::RootDir, normal("x"), Component::CurDir, normal("y"), Component::ParentDir];
    let once = normalize(comps).ok().unwrap();
    let twice = normalize(once.clone()).ok().unwrap();
    assert_eq!(shown(&once), shown(&twice));
}

fn export_config() -> ExportConfig {
    ExportConfig {
        overrides: HashMap::new(),
        config_file_path: None,
        output_directory: None,
        no_warnings: false,
        esm_imports: false,
        format: false,
        generate_index_ts: false,
        no_capture: false,
    }
}

#[test]
fn cargo_arguments() {
    let cfg = export_config();
    assert_eq!(
        invoke_args(&cfg),
        vec![
            "test",
            "export_bindings_",
            "--features",
            "ts-rs/export",
            "--features",
            "ts-rs/generate-metadata",
            "--quiet"
        ]
    );
    let mut cfg = export_config();
    cfg.no_warnings = true;
    cfg.esm_imports = true;
    cfg.format = true;
    cfg.no_capture = true;
    assert_eq!(
        invoke_args(&cfg),
        vec![
            "test",
            "export_bindings_",
            "--features",
            "ts-rs/export",
            "--features",
            "ts-rs/generate-metadata",
            "--features",
            "ts-rs/no-serde-warnings",
            "--features",
            "ts-rs/import-esm",
            "--features",
            "ts-rs/format",
            "--",
            "--nocapture"
        ]
    );
}

#[test]
fn override_variable() {
    assert_eq!(overrides_value(&vec![]), "");
    let pairs = vec![
        ("Uuid".to_string(), "string".to_string()),
        ("DateTime".to_string(), "Date".to_string()),
    ];
    assert_eq!(overrides_value(&pairs), "Uuid:string;DateTime:Date");
}

#[test]
fn default_output_directory() {
    let cfg = ExportConfig::default();
    assert_eq!(cfg.output_directory(), "./bindings");
    assert!(!cfg.generate_index_ts);
}

#[test]
fn command_line_wins_over_the_file() {
    let mut cli = export_config();
    cli.output_directory = Some("out".to_string());
    cli.format = true;
    let mut file = export_config();
    file.output_directory = Some("from_file".to_string());
    file.no_capture = true;
    file.overrides.insert("A".to_string(), "B".to_string());
    let args = Args::load(Cli::Export(cli), file).ok().unwrap();
    match &*args {
        Cli::Export(cfg) => {
            assert_eq!(cfg.output_directory(), "out");
            assert!(cfg.format);
            assert!(cfg.no_capture);
            assert_eq!(cfg.overrides.get("A").map(|s| s.as_str()), Some("B"));
            assert!(cfg.config_file_path.is_none());
        }
        Cli::Init => panic!("expected export"),
    }
}

#[test]
fn file_supplies_the_directory() {
    let mut file = export_config();
    file.output_directory = Some("from_file".to_string());
    let args = Args::load(Cli::Export(export_config()), file).ok().unwrap();
    match args.0 {
        Cli::Export(cfg) => assert_eq!(cfg.output_directory(), "from_file"),
        Cli::Init => panic!("expected export"),
    }
}

#[test]
fn missing_output_directory() {
    let err = Args::load(Cli::Export(export_config()), export_config()).err().unwrap();
    assert_eq!(err, ConfigError::MissingOutputDirectory);
    assert_eq!(
        err.message(),
        "You must provide the output diretory, either through the config file or the --output-directory flag"
    );
}

#[test]
fn init_needs_no_options() {
    let args = Args::load(Cli::Init, export_config()).ok().unwrap();
    assert!(matches!(args.0, Cli::Init));
}

#[test]
fn readme_user_lands_in_bindings() {
    let dir = ExportConfig::default();
    assert_eq!(dir.output_directory(), "./bindings");
    assert_eq!(ts_rs::derive::output_path(None, "User"), "User.ts");
}

#[test]
fn line_order_does_not_matter() {
    let a = Metadata::try_from("A,A,a.ts\nB,B,b.ts\nA,A2,a2.ts").ok().unwrap();
    let b = Metadata::try_from("A,A2,a2.ts\nB,B,b.ts\nA,A,a.ts\nB,B,b.ts").ok().unwrap();
    assert_eq!(a.has_naming_collisions(), b.has_naming_collisions());
    assert_eq!(sorted(a.export_paths()), sorted(b.export_paths()));
    assert_eq!(a.report_naming_collisions().len(), 1);
    assert_eq!(b.report_naming_collisions().len(), 1);
}

#[test]
fn plain_paths_stay_as_they_are() {
    let out = normalize(vec![Component::RootDir, normal("a"), normal("b")]).ok().unwrap();
    assert_eq!(shown(&out), vec!["/", "a", "b"]);
}

#[test]
fn one_path_per_distinct_entry() {
    let text = "A,a::A,x.ts\nB,b::B,x.ts\nA,a::A,x.ts\nA,c::A,y.ts";
    let m = Metadata::try_from(text).ok().unwrap();
    assert_eq!(sorted(m.export_paths()), vec!["x.ts".to_string(), "x.ts".to_string(), "y.ts".to_string()]);
    assert!(!m.is_empty());
}
