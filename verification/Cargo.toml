[package]
name = "caseless_paths"
version = "0.1.0"
edition = "2021"
publish = false

[dependencies]
caseless = "*"

[dev-dependencies]
tempfile = "*"
