[package]
name = "asset_ledger"
version = "0.1.0"
edition = "2021"
publish = false

[dependencies]
anyhow = "1"
axum = "0.8"
chrono = "0.4"
diesel = { version = "2", features = ["postgres", "r2d2"] }
dotenv = "0.15"
ecdsa = "0.16"
ethabi = "18"
ethers = { version = "2", default-features = false }
eyre = "0.6"
hex = "0.4"
serde = { version = "1", features = ["derive"] }
serde_json = "1"
tokio = { version = "1", features = ["macros", "rt-multi-thread", "time", "net"] }
utoipa = "5"
