[package]
name = "robot_gateway"
version = "0.1.0"
edition = "2021"
publish = false

[dependencies]
anyhow = "*"
config = { version = "*", default-features = false, features = ["toml"] }
env_logger = "*"
futures-util = "*"
log = "*"
prost = "*"
serde = { version = "*", features = ["derive"] }
serde_json = "*"
tokio = { version = "*", features = ["full"] }
tokio-stream = "*"
tokio-tungstenite = "*"
tonic = "*"
tonic-prost = "*"
