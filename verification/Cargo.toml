[package]
name = "job_hunter"
version = "0.1.0"
edition = "2021"
publish = false

[dependencies]
anyhow = "1"
async-trait = "0.1"
chrono = "0.4"
futures = "0.3"
log = "0.4"
parking_lot = "0.12"
rand = "0.8"
scraper = "*"
serde = { version = "1", features = ["derive"] }
serde_json = "1"
tokio = { version = "1", features = ["rt", "rt-multi-thread", "time", "macros", "net", "sync", "io-util"] }
tokio-tungstenite = "*"
tokio-util = "0.7"
urlencoding = "2"
uuid = { version = "1", features = ["v4"] }
