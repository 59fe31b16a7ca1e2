[package]
name = "kibana-mcp-server"
version = "0.1.2"
edition = "2021"
publish = false

[dependencies]
serde_json = "=1.0.154"
serde = { version = "=1.0.229", features = ["derive"] }
axum = "=0.8.9"
reqwest = { version = "=0.12.28", default-features = false, features = ["rustls-tls", "json"] }
tokio = { version = "=1.54.1", features = ["rt-multi-thread", "macros", "io-std", "io-util", "net"] }
tracing = "=0.1.44"
tracing-subscriber = { version = "=0.3.23", features = ["env-filter", "fmt"] }
uuid = { version = "=1.29.0", features = ["v4"] }
