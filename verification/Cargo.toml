[package]
name = "ssh_mcp"
version = "0.1.0"
edition = "2021"
publish = false

[dependencies]
uuid = { version = "=1.27.0", features = ["v4"] }
chrono = "=0.4.45"
ssh2 = "=0.9.6"
serde = { version = "=1.0.229", features = ["derive"] }
serde_json = "=1.0.151"
schemars = "=1.2.2"
log = "=0.4.34"
tokio = { version = "=1.53.2", features = ["sync", "rt-multi-thread", "macros"] }
poem = "=3.1.12"
poem-mcpserver = { version = "=0.3.1", features = ["streamable-http"] }
tracing = "=0.1.44"
tracing-subscriber = "=0.3.23"
dotenv = "=0.15.0"
