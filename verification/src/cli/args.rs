//! Options of the older single-command form of the tool.
use vstd::prelude::*;

verus! {

/// Options given on the command line.
pub struct Args {
    /// Defines where your TS bindings will be saved by setting TS_RS_EXPORT_DIR
    pub output_directory: String,
    /// Disables warnings caused by using serde attributes that ts-rs cannot process
    pub no_warnings: bool,
    /// Adds the ".js" extension to import paths
    pub esm_imports: bool,
    /// Formats the generated TypeScript files
    pub format: bool,
    /// Generates an index.ts file in your --output-directory that re-exports all
    /// types generated by ts-rs
    pub generate_index_ts: bool,
    /// Do not capture `cargo test`'s output, and pass --nocapture to the test binary
    pub no_capture: bool,
}

} // verus!
