[package]
name = "knot"
version = "0.1.0"
edition = "2021"
publish = false

[dependencies]
async-trait = "=0.1.92"
bytes = "=1.12.1"
dirs = "=7.0.0"
futures = "=0.3.34"
libp2p = { version = "=0.56.0", features = ["tokio", "tcp", "quic", "noise", "yamux", "kad", "mdns", "identify", "ping", "relay", "dcutr", "request-response", "macros", "ed25519"] }
libp2p-quic = { version = "=0.13.1", features = ["tokio"] }
serde = { version = "=1.0.229", features = ["derive"] }
serde_json = "=1.0.154"
tokio = { version = "=1.54.1", features = ["full"] }
tokio-util = { version = "=0.7.20", features = ["codec"] }
