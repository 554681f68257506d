[package]
name = "mcp_gateway"
version = "0.1.0"
edition = "2021"
publish = false

[dependencies]
axum = "0.8"
bytes = "1"
dashmap = "=6.2.1"
futures = "0.3"
futures-util = "0.3"
lru = "=0.19.0"
parking_lot = "0.12"
reqwest = { version = "=0.12.28", default-features = false, features = ["json", "stream"] }
rmcp = { version = "0.8", features = ["client", "transport-child-process", "transport-sse-client-reqwest", "transport-streamable-http-client-reqwest"] }
scopeguard = "1"
serde = { version = "1", features = ["derive"] }
serde_json = { version = "=1.0.154", features = ["preserve_order"] }
serde_yaml = "0.9"
tokio = { version = "1", features = ["full"] }
tokio-stream = "0.1"
tokio-util = "0.7"
tracing = "0.1"
uuid = { version = "1", features = ["v7"] }
