[package]
name = "upgradepath"
version = "0.1.0"
edition = "2021"
publish = false

[dependencies]
semver = "=1.0.28"
clap = { version = "=4.6.7", features = ["derive"] }
serde = { version = "=1.0.229", features = ["derive"] }
serde_derive = "=1.0.229"
serde_json = "=1.0.154"
serde_yaml = "0.9"
tokio = { version = "=1.54.1", features = ["rt-multi-thread", "macros"] }
walkdir = "=2.5.0"
