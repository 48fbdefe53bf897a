[package]
name = "callgraph"
version = "0.1.0"
edition = "2021"
publish = false

[dependencies]
cargo_metadata = "*"
rustc_version = "*"
serde_json = "*"
wait-timeout = "*"
which = "*"
