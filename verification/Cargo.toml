[package]
name = "cargo"
version = "0.1.0"
edition = "2021"
publish = false

[dependencies]
semver = "1"
url = "2"
rustc-serialize = "0.3"
