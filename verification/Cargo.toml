[package]
name = "dataflare_wasm"
version = "0.1.0"
edition = "2021"
publish = false

[dependencies]
serde = { version = "1", features = ["derive"] }
serde_json = "1"
uuid = { version = "1", features = ["v4"] }
chrono = "0.4"
log = "0.4"
thiserror = "1"
rand = "0.8"
sha2 = "0.10"
jsonwebtoken = "9"
async-trait = "0.1"
tokio = { version = "1", features = ["sync", "time", "rt", "macros"] }
