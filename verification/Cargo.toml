[package]
name = "rust_edge_agent"
version = "0.3.2"
edition = "2021"
publish = false

[dependencies]
anyhow = "=1.0.104"
async-nats = "=0.51.0"
clap = { version = "=4.6.7", features = ["derive", "env"] }
futures = "=0.3.34"
mom-rpc = { version = "=0.9.5", features = ["transport_rumqttc"] }
rand = "=0.10.3"
serde = { version = "=1.0.229", features = ["derive"] }
serde_json = "=1.0.154"
tokio = { version = "=1.54.1", features = ["full"] }
tracing-subscriber = "=0.3.23"
