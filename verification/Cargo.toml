[package]
name = "upstream_core"
version = "0.1.0"
edition = "2021"
publish = false

[dependencies]
magic-crypt = "*"
bincode = "1"
serde = { version = "1", features = ["derive"] }
toml = "*"
home = "*"
