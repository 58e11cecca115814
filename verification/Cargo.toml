[package]
name = "openscenario"
version = "0.1.0"
edition = "2021"
publish = false

[dependencies]
quick-xml = "*"
uppsala = "*"
opendrive = "*"
serde = { version = "1", features = ["derive"] }
serde_json = "1"
thiserror = "*"
uuid = { version = "1", features = ["v4"] }
mcp-sdk = "*"
tokio = { version = "1", features = ["full"] }
tracing = "0.1"
tracing-subscriber = "0.3"
once_cell = "1"
anyhow = "1"
