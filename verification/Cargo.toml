[package]
name = "nexus"
version = "0.1.0"
edition = "2021"
publish = false

[dependencies]
meval = "*"
fuzzy-matcher = "*"
semver = "*"
serde = { version = "*", features = ["derive"] }
serde_json = "*"
dirs = "*"
open = "*"
