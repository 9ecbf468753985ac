[package]
name = "lynk"
version = "0.1.0"
edition = "2021"
publish = false

[dependencies]
libp2p = { version = "0.52", features = ["gossipsub", "kad", "identify", "ping", "autonat", "relay", "dcutr", "tcp", "dns", "noise", "yamux", "tokio", "macros", "ed25519"] }
base64url = "*"
tokio = { version = "1", features = ["rt-multi-thread", "macros", "sync", "time"] }
futures = "0.3"
log = "0.4"
async-trait = "0.1"
