[package]
name = "arcanum"
version = "0.1.0"
edition = "2021"
publish = false

[dependencies]
axum = { version = "=0.8.9", default-features = false, features = ["http1", "tokio"] }
dashmap = "=6.2.1"
futures = { version = "=0.3.34", default-features = false, features = ["std", "async-await"] }
http = "=1.5.0"
indexmap = "=2.14.2"
objectiveai-sdk = { version = "=2.2.16", default-features = false, features = ["cli", "cli-executor", "mcp", "daemon", "lockfile"] }
rmcp = { version = "=1.8.0", default-features = false, features = ["server", "macros", "transport-streamable-http-server"] }
schemars = "=1.2.3"
serde = { version = "=1.0.229", features = ["derive"] }
serde_json = "=1.0.154"
sqlx = { version = "=0.9.0", default-features = false, features = ["postgres", "runtime-tokio"] }
tokio = { version = "=1.54.1", features = ["rt-multi-thread", "macros", "net", "time", "sync"] }
