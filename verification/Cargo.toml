[package]
name = "futures_orderbook"
version = "0.1.0"
edition = "2021"
publish = false

[dependencies]
serde = { version = "=1.0.229", features = ["derive"] }
serde_json = "=1.0.154"
tokio = { version = "=1.54.1", features = ["full"] }
tokio-tungstenite = { version = "=0.30.0", features = ["rustls-tls-webpki-roots"] }
futures-util = "=0.3.34"
reqwest = { version = "=0.12.28", default-features = false, features = ["json", "rustls-tls"] }
clap = { version = "=4.6.7", features = ["derive"] }
anyhow = "=1.0.104"
thiserror = "=2.0.21"
tracing = "=0.1.44"
tracing-subscriber = { version = "=0.3.23", features = ["env-filter"] }
chrono = { version = "0.4", features = ["serde"] }
uuid = { version = "1", features = ["v4", "serde"] }
axum = { version = "*", features = ["ws"] }
tower-http = { version = "*", features = ["cors", "fs"] }
clickhouse = { version = "*", features = ["uuid", "chrono"] }
async-trait = "*"
