[package]
name = "swarm-p2p-core"
version = "0.4.1"
edition = "2021"
publish = false

[dependencies]
anyhow = "1"
async-trait = "0.1"
futures = "0.3"
libp2p = { version = "0.56", features = ["autonat", "cbor", "dcutr", "ed25519", "identify", "kad", "macros", "mdns", "noise", "ping", "relay", "request-response", "tcp", "tokio", "yamux"] }
libp2p-stream = "0.4.0-alpha"
parking_lot = "0.12"
serde = { version = "1", features = ["derive"] }
thiserror = "2"
tokio = { version = "1", features = ["macros", "rt", "rt-multi-thread", "sync", "time"] }
tracing = "0.1"
