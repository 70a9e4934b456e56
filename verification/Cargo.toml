[package]
name = "sqldb-postgres"
version = "0.1.0"
edition = "2021"
publish = false

[dependencies]
anyhow = "=1.0.104"
chrono = { version = "=0.4.45", features = ["serde"] }
clap = { version = "=4.6.7", features = ["derive"] }
console = "=0.15.11"
deadpool-postgres = "=0.14.2"
file-guard = "=0.2.0"
futures = "=0.3.34"
rand = "=0.8.8"
rustls = { version = "=0.23.46", default-features = false, features = ["logging", "ring", "std", "tls12"] }
semver = { version = "=1.0.28", features = ["serde"] }
serde = { version = "=1.0.229", features = ["derive"] }
serde_json = "=1.0.154"
tokio = { version = "=1.54.1", features = ["full"] }
tokio-postgres = "=0.7.18"
tokio-postgres-rustls = "=0.12.0"
tracing = "=0.1.44"
ulid = "=1.2.1"
