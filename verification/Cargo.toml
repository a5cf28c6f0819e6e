[package]
name = "sylk_bot"
version = "0.1.0"
edition = "2021"
publish = false

[dependencies]
chrono = { version = "=0.4.45", features = ["serde"] }
poise = "=0.5.7"
serenity = { version = "=0.11.7", default-features = false, features = ["builder", "cache", "chrono", "client", "gateway", "model", "http", "utils", "rustls_backend", "framework", "standard_framework", "collector"] }
tokio = { version = "=1.54.1", features = ["full"] }
tokio-stream = "=0.1.19"
futures = "=0.3.34"
async-trait = "=0.1.92"
dotenv = "=0.15.0"
eventual = "=0.1.7"
firestore = { version = "=0.61.1", default-features = false }
reqwest = { version = "=0.11.27", default-features = false, features = ["rustls-tls"] }
serde = { version = "=1.0.229", features = ["derive"] }
serde_json = "=1.0.154"
toml = "=0.5.11"
websocket = { version = "=0.26.5", default-features = false, features = ["sync"] }
