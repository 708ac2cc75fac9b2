[package]
name = "substrate"
version = "0.1.0"
edition = "2021"
publish = false

[dependencies]
semver = "1"
serde = { version = "1", features = ["derive"] }
serde_json = "1"
ureq = "2"
urlencoding = "2"
