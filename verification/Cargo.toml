[package]
name = "ruf_audit"
version = "0.1.0"
edition = "2021"
publish = false

[dependencies]
ansi_term = "0.12"
cargo-lock = { version = "9", features = ["dependency-tree"] }
cargo_metadata = "0.18"
getopts = "0.2"
petgraph = "0.6"
postgres = "0.19"
regex = "1"
semver = "1"
serde = { version = "1", features = ["derive"] }
serde_json = "1"
tame-index = { version = "0.9", features = ["sparse"] }
