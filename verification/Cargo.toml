[package]
name = "spn_core"
version = "0.1.0"
edition = "2021"
publish = false

[dependencies]
sha2 = "0.10"
hex = "0.4"
uuid = { version = "1", features = ["v4", "serde"] }
chrono = "0.4"
libp2p = { version = "0.54", features = ["tokio", "gossipsub", "mdns", "kad", "identify", "ping", "request-response", "noise", "tcp", "yamux", "macros"] }
tokio = { version = "1", features = ["rt-multi-thread", "macros", "sync", "time"] }
futures = "0.3"
async-trait = "0.1"
clap = { version = "4", features = ["derive", "env"] }
tracing = "0.1"
tracing-subscriber = { version = "0.3", features = ["env-filter"] }
serde_json = "1"
anyhow = "1"
ratatui = "0.29"
crossterm = "0.28"

[dev-dependencies]
bincode = "1"
serde = "1"
