//! The settings read from `ts.toml` in the crate that derives the bindings.
use vstd::prelude::*;

use crate::text::string_from;

verus! {

/// The settings of `ts.toml`.
pub struct Config {
    ambient_declarations: bool,
    out_dir: String,
}

impl Config {
    /// The name of the settings file in the crate's manifest directory.
    pub const FILE_NAME: &'static str = "ts.toml";

    /// Whether declarations are written with `declare`.
    pub closed spec fn spec_ambient_declarations(&self) -> bool {
        self.ambient_declarations
    }

    /// The directory that bindings are written to.
    pub closed spec fn spec_out_dir(&self) -> Seq<char> {
        self.out_dir@
    }

    /// Settings with the given values.
    pub fn new(ambient_declarations: bool, out_dir: String) -> (r: Self)
        ensures
            r.spec_ambient_declarations() == ambient_declarations,
            r.spec_out_dir() == out_dir@,
    {
        Config { ambient_declarations, out_dir }
    }

    /// Whether declarations are written as ambient ones.
    pub fn ambient_declarations(&self) -> (r: bool)
        ensures
            r == self.spec_ambient_declarations(),
    {
        self.ambient_declarations
    }

    /// The directory the bindings are written to.
    pub fn out_dir(&self) -> (r: &str)
        ensures
            r@ == self.spec_out_dir(),
    {
        self.out_dir.as_str()
    }

    /// The settings found in the file, or the defaults when there is no file.
    pub fn or_default(found: Option<Config>) -> (r: Config)
        ensures
            match found {
                Some(c) => r == c,
                None => !r.spec_ambient_declarations() && r.spec_out_dir() == "typescript"@,
            },
    {
        match found {
            Some(c) => c,
            None => Config::default(),
        }
    }
}

impl Default for Config {
    /// No ambient declarations; bindings go to `typescript`.
    fn default() -> (r: Self)
        ensures
            !r.spec_ambient_declarations(),
            r.spec_out_dir() == "typescript"@,
    {
        Config { ambient_declarations: false, out_dir: string_from("typescript") }
    }
}

} // verus!
