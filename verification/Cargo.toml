[package]
name = "transaction_engine"
version = "0.1.0"
edition = "2021"
publish = false

[dependencies]
csv = "1"
eyre = "0.6"
serde = { version = "1", features = ["derive"] }
