[package]
name = "cyril_core"
version = "0.1.0"
edition = "2021"
publish = false

[dependencies]
agent-client-protocol = "=0.15.1"
anyhow = "=1.0.104"
async-trait = "=0.1.92"
glob = "=0.3.4"
nucleo-matcher = "=0.3.1"
serde = { version = "=1.0.229", features = ["derive"] }
serde_json = "=1.0.151"
similar = "=3.2.0"
tokio = { version = "=1.53.2", features = ["full"] }
