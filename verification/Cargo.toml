[package]
name = "kakitu_miner"
version = "0.1.0"
edition = "2021"
publish = false

[dependencies]
blake2b_simd = "1"
futures-util = "0.3"
hex = "0.4"
rand = "0.9"
serde = { version = "1", features = ["derive"] }
serde_json = "1"
tokio = { version = "1", features = ["rt", "macros", "sync", "time", "net"] }
tokio-tungstenite = { version = "*", features = ["rustls-tls-webpki-roots"] }
