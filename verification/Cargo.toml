[package]
name = "tunnel_plugins"
version = "0.1.0"
edition = "2021"
publish = false

[dependencies]
http = "1"
ferrotunnel = "*"
ferrotunnel-plugin = "*"
ferrotunnel-http = "*"
async-trait = "*"
tokio = { version = "1", features = ["full"] }
tracing = "*"
tracing-subscriber = { version = "*", features = ["env-filter"] }
futures-util = "*"
tokio-tungstenite = "*"
