[package]
name = "blocksync"
version = "0.1.0"
edition = "2021"
publish = false

[dependencies]
anyhow = "*"
crossbeam-channel = "*"
futures = "*"
libp2p = { version = "*", default-features = false }
rusqlite = { version = "*", features = ["bundled"] }
serde = { version = "*", features = ["derive"] }
serde_json = "*"
starknet_api = "*"
starknet-crypto = "*"
tokio = { version = "*", features = ["rt-multi-thread", "sync"] }
void = "*"
