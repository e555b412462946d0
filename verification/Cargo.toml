[package]
name = "osaio_proxy"
version = "0.1.0"
edition = "2021"
publish = false

[dependencies]
anyhow = "1"
async-trait = "0.1"
axum = "0.8"
base64 = "0.22"
bytes = "1"
futures-util = "0.3"
hmac = "*"
md-5 = "*"
rand = "*"
reqwest = { version = "*", features = ["json", "query"] }
rtc = "*"
rustls = "0.23"
serde = { version = "1", features = ["derive"] }
serde_json = "1"
sha2 = "*"
tokio = { version = "1", features = ["full"] }
tokio-stream = { version = "0.1", features = ["sync"] }
tokio-tungstenite = { version = "*", features = ["rustls-tls-webpki-roots"] }
toml = "*"
tracing = "0.1"
tracing-subscriber = { version = "0.3", features = ["env-filter"] }
webrtc = "*"
