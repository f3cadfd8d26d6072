[package]
name = "snap_marketplace"
version = "0.1.0"
edition = "2021"
publish = false

[dependencies]
anyhow = "1"
base64 = "=0.22.1"
bcs = "=0.1.6"
chrono = "=0.4.45"
clap = { version = "4", features = ["derive"] }
futures = "0.3"
ipnet = "=2.12.2"
serde = { version = "1", features = ["derive"] }
serde_json = "=1.0.154"
sui-crypto = { version = "=0.4.0", features = ["ed25519", "secp256k1", "secp256r1"] }
sui-rpc = "=0.4.0"
sui-sdk-types = { version = "=0.4.0", features = ["serde", "hash"] }
sui-transaction-builder = "=0.4.0"
tokio = { version = "1", features = ["macros", "rt-multi-thread", "net", "io-util", "time", "sync"] }
toml = "1"
