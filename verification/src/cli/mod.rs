//! The command line tool: its options and configuration file, the `cargo`
//! invocation it makes, the metadata file it reads back and the paths it uses.
pub mod args;
pub mod cargo;
pub mod config;
pub mod metadata;
pub mod path;
