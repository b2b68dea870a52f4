[package]
name = "relay_pool"
version = "0.1.0"
edition = "2021"
publish = false

[dependencies]
http = "=1.5.0"
reqwest = { version = "=0.12.28", default-features = false, features = ["json", "stream", "rustls-tls"] }
rmcp = { version = "=0.2.1", features = ["client", "transport-sse-client", "transport-child-process", "reqwest"] }
sse-stream = "0.2"
tokio = { version = "=1.54.1", features = ["process", "sync", "rt", "macros"] }
tokio-util = "=0.7.20"
futures = "=0.3.34"
anyhow = "=1.0.104"
tracing = "=0.1.44"
