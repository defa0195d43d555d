[package]
name = "browser_port"
version = "0.1.0"
edition = "2021"
publish = false

[dependencies]
anyhow = "1"
base64 = "0.22"
futures-util = "0.3"
ndi = "*"
openh264 = "*"
serde_json = "1"
tokio = { version = "1", features = ["full"] }
tokio-tungstenite = "*"
