[package]
name = "common"
version = "0.1.0"
edition = "2021"
publish = false

[dependencies]
log = "0.4"
serde = { version = "1", features = ["derive"] }
tokio = { version = "1", features = ["io-util"] }
tokio-postgres = "0.7"
toml = "0.5"
