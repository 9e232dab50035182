[package]
name = "mcp_proxy"
version = "0.1.0"
edition = "2021"
publish = false

[dependencies]
axum = "=0.8.9"
clap = { version = "=4.6.7", features = ["derive", "env"] }
http = "=1.5.0"
reqwest = { version = "=0.13.5", default-features = false, features = ["rustls", "json", "form"] }
rmcp = { version = "=1.8.0", features = ["client", "server", "transport-io", "transport-child-process", "transport-streamable-http-client-reqwest", "transport-streamable-http-server"] }
serde_json = "=1.0.154"
shell-words = "=1.1.1"
thiserror = "=2.0.21"
tokio = { version = "=1.54.1", features = ["full"] }
tokio-util = "=0.7.20"
tower-http = { version = "=0.6.11", features = ["cors"] }
tracing = "=0.1.44"
tracing-subscriber = "=0.3.23"
