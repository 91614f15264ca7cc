[package]
name = "runbot"
version = "0.1.0"
edition = "2021"
publish = false

[dependencies]
derive_more = "0.99"
err-derive = "0.2"
itertools = "0.9"
maplit = "1"
parking_lot = "0.10"
redis = { version = "0.16", default-features = false }
ref-cast = "1"
reqwest = { version = "0.10", features = ["blocking", "json"] }
rustc-hash = "1"
serde = { version = "1", features = ["derive"] }
serde_json = "1"
serenity = "0.8"
shell-words = "1"
strip-ansi-escapes = "0.1"
structopt = "0.3"
tabular = "0.1"
toml = "0.5"
url = "2"
