//! Naming, attribute and configuration logic behind TypeScript bindings
//! generated from Rust types.
pub mod inflection;
pub mod text;
pub mod utils;
pub mod path;
pub mod optional;
pub mod syntax;
pub mod attr;
pub mod cli;
pub mod config;
pub mod types;
pub mod derive;
pub mod deps;
pub mod type_tree;
