[package]
name = "ts_rs"
version = "0.1.0"
edition = "2021"
publish = false

[dependencies]
syn = { version = "2", features = ["full", "extra-traits"] }
proc-macro2 = "1"
quote = "1"
termcolor = "1"
clap = { version = "4", features = ["derive"] }
serde = { version = "1", features = ["derive"] }
toml = "0.8"
color-eyre = "0.6"
anyhow = "1"
once_cell = "1"
Inflector = "0.11"
