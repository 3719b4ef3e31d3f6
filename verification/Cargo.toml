[package]
name = "stock_pred"
version = "0.1.0"
edition = "2021"
publish = false

[dependencies]
chrono = { version = "=0.4.45", features = ["serde"] }
clap = { version = "4", features = ["derive"] }
csv = "1"
dotenv = "0.15"
hex = "=0.4.3"
hmac = "=0.12.1"
itertools = "0.13"
notify = "6"
once_cell = "1"
reqwest = { version = "0.12", features = ["json"] }
serde = { version = "1", features = ["derive"] }
serde_json = "1"
sha2 = "=0.10.9"
tokio = { version = "1", features = ["full"] }
tokio-stream = "0.1"
tokio-tungstenite = "0.21"
tracing = "0.1"
tracing-appender = "0.2"
tracing-subscriber = "0.3"
url = "2"
