[package]
name = "signed_ledger"
version = "0.1.0"
edition = "2021"
publish = false

[dependencies]
ring = "0.17"
chrono = { version = "0.4", features = ["serde"] }
serde = { version = "1", features = ["derive"] }
serde_json = "1"
anyhow = "1"
