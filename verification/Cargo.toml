[package]
name = "netvr"
version = "0.1.0"
edition = "2021"
publish = false

[dependencies]
openxr-sys = "=0.9.3"
serde = { version = "=1.0.229", features = ["derive"] }
bincode = "=1.3.3"
serde_json = "=1.0.154"
tokio = { version = "=1.54.1", features = ["full"] }
tokio-util = "0.7"
futures-util = "0.3"
anyhow = "=1.0.104"
thiserror = "=1.0.69"
quinn = "0.10"
rustls = { version = "0.21", features = ["dangerous_configuration", "quic"] }
rcgen = "0.11"
warp = "0.3"
