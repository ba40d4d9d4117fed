[package]
name = "school_ledger"
version = "0.1.0"
edition = "2021"
publish = false

[dependencies]
chrono = "*"
validator = "*"
serde = { version = "*", features = ["derive"] }
serde_json = "*"
