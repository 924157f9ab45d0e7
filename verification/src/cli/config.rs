//! The export options, from the command line and from `ts-rs.toml`.
use std::collections::HashMap;

use vstd::prelude::*;

use crate::text::{opt_view, string_from};

verus! {

/// The options after the subcommand has been read.
pub struct Args(pub Cli);

impl core::ops::Deref for Args {
    type Target = Cli;

    fn deref(&self) -> (r: &Cli)
        ensures
            *r == self.0,
    {
        &self.0
    }
}

/// The subcommands.
pub enum Cli {
    Init,
    Export(ExportConfig),
}

/// The options of `export`; paths are kept as text.
pub struct ExportConfig {
    /// Type overrides for types implemented inside ts-rs.
    pub overrides: HashMap<String, String>,
    /// Path to the `ts-rs` config file
    pub config_file_path: Option<String>,
    /// Defines where your TS bindings will be saved by setting `TS_RS_EXPORT_DIR`
    pub output_directory: Option<String>,
    /// Disables warnings caused by using serde attributes that ts-rs cannot process
    pub no_warnings: bool,
    /// Adds the ".js" extension to import paths
    pub esm_imports: bool,
    /// Formats the generated TypeScript files
    pub format: bool,
    /// Generates an index.ts file in your --output-directory that re-exports all
    /// types generated by ts-rs
    pub generate_index_ts: bool,
    /// Do not capture `cargo test`'s output, and pass --nocapture to the test binary
    pub no_capture: bool,
}

/// The configuration cannot be used.
#[derive(Copy, Clone, Debug, PartialEq, Eq, Structural)]
pub enum ConfigError {
    /// Neither the command line nor the config file gives the output directory.
    MissingOutputDirectory,
}

impl ConfigError {
    /// The text of the error reported to the user (after its `Error:` label).
    pub fn message(&self) -> (r: &'static str)
        ensures
            r@ == "You must provide the output diretory, either through the config file or the --output-directory flag"@,
    {
        "You must provide the output diretory, either through the config file or the --output-directory flag"
    }
}

impl Default for ExportConfig {
    fn default() -> (r: Self)
        ensures
            r.overrides@ == Map::<String, String>::empty(),
            r.config_file_path is None,
            opt_view(r.output_directory) == Some("./bindings"@),
            !r.no_warnings,
            !r.esm_imports,
            !r.format,
            !r.generate_index_ts,
            !r.no_capture,
    {
        ExportConfig {
            overrides: HashMap::new(),
            config_file_path: None,
            output_directory: Some(string_from("./bindings")),
            no_warnings: false,
            esm_imports: false,
            format: false,
            generate_index_ts: false,
            no_capture: false,
        }
    }
}

/// Options from the command line (`a`) completed by those of the config file
/// (`b`): the output directory of `a` if given, else that of `b`; the type
/// overrides of `b`; each flag set when either sets it; no config file path.
pub open spec fn merged_config(a: ExportConfig, b: ExportConfig, r: ExportConfig) -> bool {
    &&& r.output_directory == (match a.output_directory {
        Some(d) => Some(d),
        None => b.output_directory,
    })
    &&& r.overrides == b.overrides
    &&& r.no_warnings == (a.no_warnings || b.no_warnings)
    &&& r.esm_imports == (a.esm_imports || b.esm_imports)
    &&& r.format == (a.format || b.format)
    &&& r.generate_index_ts == (a.generate_index_ts || b.generate_index_ts)
    &&& r.no_capture == (a.no_capture || b.no_capture)
    &&& r.config_file_path is None
}

impl ExportConfig {
    /// The output directory; it is set once the configuration has been checked.
    pub fn output_directory(&self) -> (r: &str)
        requires
            self.output_directory is Some,
        ensures
            r@ == self.output_directory->0@,
    {
        match &self.output_directory {
            Some(d) => d.as_str(),
            None => "",
        }
    }

    /// Completes the options of `self` with those of `other`.
    pub fn merge(self, other: Self) -> (r: Self)
        ensures
            merged_config(self, other, r),
    {
        ExportConfig {
            output_directory: match self.output_directory {
                Some(d) => Some(d),
                None => other.output_directory,
            },
            overrides: other.overrides,
            no_warnings: self.no_warnings || other.no_warnings,
            esm_imports: self.esm_imports || other.esm_imports,
            format: self.format || other.format,
            generate_index_ts: self.generate_index_ts || other.generate_index_ts,
            no_capture: self.no_capture || other.no_capture,
            config_file_path: None,
        }
    }

    /// Refuses a configuration without an output directory.
    pub fn verify(&self) -> (r: Result<(), ConfigError>)
        ensures
            r is Ok <==> self.output_directory is Some,
    {
        if self.output_directory.is_none() {
            return Err(ConfigError::MissingOutputDirectory);
        }
        Ok(())
    }
}

impl Args {
    /// The options to run with: `init` as it is; for `export`, the command
    /// line options completed by those of the config file (its defaults when
    /// there is no file), then checked.
    pub fn load(cli: Cli, file_config: ExportConfig) -> (r: Result<Args, ConfigError>)
        ensures
            match cli {
                Cli::Init => r matches Ok(a) && a.0 is Init,
                Cli::Export(c) => match r {
                    Ok(a) => a.0 matches Cli::Export(cfg) && merged_config(c, file_config, cfg)
                        && cfg.output_directory is Some,
                    Err(e) => e == ConfigError::MissingOutputDirectory && c.output_directory is None
                        && file_config.output_directory is None,
                },
            },
    {
        match cli {
            Cli::Init => Ok(Args(Cli::Init)),
            Cli::Export(export_config) => {
                let cfg = export_config.merge(file_config);
                match cfg.verify() {
                    Ok(()) => Ok(Args(Cli::Export(cfg))),
                    Err(e) => Err(e),
                }
            },
        }
    }
}

} // verus!
