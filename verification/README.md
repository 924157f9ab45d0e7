# ts_rs

The decisions and texts behind TypeScript bindings for Rust types, verified
with Verus, and the tool around them.

`src/` is the verified library:

- `attr`: the options of `#[ts(..)]` and `#[serde(..)]` attributes, how
  repeated attributes combine, and which combinations are refused.
- `inflection`, `utils`, `optional`: renaming (`rename_all`), TypeScript field
  names, doc comments, and when a field becomes optional.
- `path`: reading `export_to = ..` (a string, a static, a function or an
  environment variable) from its tokens, and the file a type is written to.
- `types`, `derive`, `deps`, `type_tree`: what a struct, enum, variant, field
  or function becomes in TypeScript, the text assembled from the parts, the
  declarations and export test of a derived type, its dependencies, and the
  type parameters that its `where` clause bounds.
- `cli`: the export tool's options and config file, the `cargo` run it makes,
  the metadata file it reads back (and the naming collisions in it), and the
  output directory made absolute.
- `config`: the settings of `ts.toml`.
- `text`, `syntax`: string functions with their specifications, and the few
  calls into `std`, Inflector and `syn` that the library rests on.

`app/` holds what Verus does not see: the command line tool (`main`, files,
`cargo`, printing), reading `ts.toml`, and the derive glue that turns `syn`
syntax into the library's values and writes the generated impl.

`tests/` runs the library on concrete values.
