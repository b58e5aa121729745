[package]
name = "outcome_core"
version = "0.1.0"
edition = "2021"
publish = false

[dependencies]
bincode = "1.3"
fnv = "1.0"
getopts = "0.2"
semver = "0.9"
serde = { version = "1", features = ["derive"] }
toml = "0.5"
