[package]
name = "vvm_lib"
version = "0.1.0"
edition = "2021"
publish = false

[dependencies]
anyhow = "1"
clap = { version = "3", features = ["derive"] }
dialoguer = "0.10"
fs2 = "0.4"
hex = "0.4"
home = "0.5"
md-5 = "0.10"
reqwest = { version = "0.11", default-features = false, features = ["blocking", "json", "rustls-tls"] }
semver = "1"
serde = { version = "1", features = ["derive"] }
serde_json = "1"
thiserror = "1"
tokio = { version = "1", features = ["rt-multi-thread", "macros"] }
tracing = "0.1"
url = "2"

[dev-dependencies]
tempfile = "3"
