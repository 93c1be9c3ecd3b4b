[package]
name = "mcp_rig"
version = "0.1.0"
edition = "2021"
publish = false

[dependencies]
mcp-client = "=0.1.0"
mcp-spec = "=0.1.0"
rig-core = "=0.9.1"
serde = { version = "=1.0.229", features = ["derive"] }
serde_json = "=1.0.154"
thiserror = "=1.0.69"
tokio = { version = "=1.54.1", features = ["rt", "rt-multi-thread", "macros", "time", "io-util", "io-std"] }
tracing-subscriber = { version = "=0.3.23", features = ["env-filter"] }

[dev-dependencies]
tower = { version = "=0.4.13", features = ["timeout"] }
