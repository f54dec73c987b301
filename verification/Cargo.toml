[package]
name = "consensus_api"
version = "0.1.0"
edition = "2021"
publish = false

[dependencies]
base64 = "0.22"
serde = { version = "1", features = ["derive"] }
serde_json = "1"
jsonrpsee = { version = "*", default-features = false, features = ["server-core", "client-core", "macros"] }
