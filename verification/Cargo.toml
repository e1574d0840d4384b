[package]
name = "yammm"
version = "0.1.0"
edition = "2021"
publish = false

[dependencies]
path-clean = "=1.0.1"
serde = { version = "=1.0.229", features = ["derive"] }
serde_json = "=1.0.154"
toml = "=0.8.23"
dirs = "=5.0.1"
zip = { version = "=2.6.1", default-features = false, features = ["deflate"] }
clap = { version = "=4.6.7", features = ["derive"] }
nucleo-matcher = "=0.3.1"
pathdiff = "0.2"
ron = "0.8"
