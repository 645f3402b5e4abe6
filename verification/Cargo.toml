[package]
name = "punch_simple"
version = "0.1.0"
edition = "2021"
publish = false

[dependencies]
sha2 = "0.10"
uuid = { version = "1", features = ["v4"] }
serde = { version = "1", features = ["derive"] }
serde_json = "1"
tokio = { version = "1", features = ["full"] }
libp2p = { version = "0.53", features = ["kad", "request-response", "tokio", "macros", "identify", "ping", "tcp", "noise", "yamux"] }
async-trait = "0.1"
clap = { version = "4", features = ["derive"] }
num_cpus = "1"
rand = "0.8"
