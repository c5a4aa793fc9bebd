[package]
name = "gozara"
version = "0.1.0"
edition = "2021"
publish = false

[dependencies]
axum = "0.8"
bincode = "1.3"
blake3 = "1"
bytes = "1"
dashmap = "6"
dotenv = "0.15"
eyre = "0.6"
futures = "0.3"
hex = "0.4"
libp2p = { version = "0.56", features = ["tokio", "tcp", "quic", "noise", "yamux", "gossipsub", "kad", "identify", "request-response", "cbor", "macros", "ed25519"] }
libp2p-stream = "0.4.0-alpha"
rs_merkle = "1"
serde = { version = "1", features = ["derive"] }
tokio = { version = "1", features = ["full"] }
tokio-stream = "0.1"
tracing = "0.1"
tracing-subscriber = "0.3"
