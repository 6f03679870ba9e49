[package]
name = "indexer"
version = "0.1.0"
edition = "2021"
publish = false

[dependencies]
async-channel = "2"
chrono = "0.4"
clokwerk = "0.4"
futures = "0.3"
futures-util = "0.3"
serde = { version = "1", features = ["derive"] }
serde_json = "1"
serde_yaml = "0.9"
sha2 = "0.10"
sqlx = { version = "0.8", default-features = false, features = ["postgres", "runtime-tokio", "chrono", "rust_decimal", "json", "derive"] }
subtle-encoding = { version = "0.5", features = ["bech32-preview"] }
tendermint = "0.34"
tendermint-rpc = { version = "0.34", features = ["http-client"] }
thiserror = "1"
tokio = { version = "1", features = ["full"] }
tracing = "0.1"
tracing-subscriber = { version = "0.3", features = ["env-filter"] }
ureq = "2"
