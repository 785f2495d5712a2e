[package]
name = "orderbook_aggregator"
version = "0.1.0"
edition = "2021"
publish = false

[dependencies]
binance = "*"
error-chain = "0.12"
futures = "0.3"
prost = "0.11"
serde = { version = "1", features = ["derive"] }
serde_json = "1"
tokio = { version = "1", features = ["macros", "rt-multi-thread", "sync"] }
tokio-stream = "0.1"
tokio-tungstenite = { version = "0.20", features = ["native-tls"] }
tonic = "0.8"
