[package]
name = "sysand"
version = "0.1.0"
edition = "2021"
publish = false

[dependencies]
semver = "1"
url = "2"
percent-encoding = "2"
sha2 = "0.10"
fluent-uri = "0.3"
serde = { version = "1", features = ["derive"] }
serde_json = "1"
zip = { version = "2", default-features = false, features = ["deflate"] }
camino = "1"
clap = { version = "4", features = ["derive"] }
anyhow = "1"
log = "0.4"
