[package]
name = "tool_runtime"
version = "0.1.0"
edition = "2021"
publish = false

[dependencies]
serde_json = "1"
serde = { version = "1", features = ["derive"] }
jsonschema = { version = "*", default-features = false }
base64 = "0.22"
url = "2"
uuid = { version = "1", features = ["v4"] }
http = "1"
rand = "*"
tokio = { version = "1", features = ["time", "rt", "net", "macros"] }
async-trait = "0.1"
futures-util = "0.3"
secrecy = "0.10"
thiserror = "2"
anyhow = "1"
tracing = "0.1"
prometheus-client = "*"
rmcp = { version = "*", features = ["client"] }
