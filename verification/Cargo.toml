[package]
name = "ethlambda"
version = "0.1.0"
edition = "2021"
publish = false

[dependencies]
libp2p = { version = "0.56", features = ["gossipsub", "identify", "macros", "request-response", "secp256k1"] }
sha2 = "0.10"
rand = "0.8"
hex = "0.4"
eyre = "0.6"
serde = { version = "1", features = ["derive"] }
serde_json = "1"
futures = "0.3"
tokio = { version = "1", features = ["rt", "sync", "time"] }
tokio-util = "0.7"
tracing = "0.1"
spawned-concurrency = "0.5"
ethrex-common = { version = "24", default-features = false }
ethrex-rlp = "24"
ethrex-p2p = "24"
