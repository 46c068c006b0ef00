[package]
name = "embedded-gdb-mcp"
version = "0.1.0"
edition = "2021"
publish = false

[dependencies]
regex = "*"
rmcp = { version = "*", features = ["server", "macros", "transport-io"] }
tokio = { version = "*", features = ["full"] }
serde = { version = "*", features = ["derive"] }
serde_json = "*"
schemars = "*"
thiserror = "*"
tracing = "*"
tracing-subscriber = { version = "*", features = ["env-filter"] }
chrono = "*"
