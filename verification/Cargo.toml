[package]
name = "wavefront"
version = "0.1.0"
edition = "2021"
publish = false

[dependencies]
anyhow = "=1.0.104"
axum = { version = "=0.7.9", default-features = false, features = ["http1", "tokio", "ws"] }
cpal = "=0.15.3"
futures-util = "=0.3.34"
hostname = "=0.4.2"
local-ip-address = "=0.6.13"
parking_lot = "=0.12.5"
serde = { version = "=1.0.229", features = ["derive"] }
serde_json = "=1.0.154"
tokio = { version = "=1.54.1", features = ["full"] }
tokio-tungstenite = "=0.21.0"
tower-http = { version = "=0.5.2", features = ["fs"] }
