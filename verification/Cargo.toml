[package]
name = "inference_gateway"
version = "0.1.0"
edition = "2021"
publish = false

[dependencies]
serde = { version = "=1.0.229", features = ["derive"] }
serde_json = "=1.0.151"
sha2 = "=0.11.0"
flate2 = "=1.1.10"
tar = "=0.4.46"
zip = "=8.6.0"
tokenizers = "=0.23.2"
reqwest = { version = "=0.13.5", features = ["json"] }
tokio = { version = "=1.53.2", features = ["rt-multi-thread", "macros", "sync"] }
warp = { version = "=0.4.3", features = ["server", "websocket"] }
futures = "=0.3.34"
tokio-stream = "=0.1.19"
tokio-tungstenite = "=0.30.0"
