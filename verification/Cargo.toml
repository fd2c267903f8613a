[package]
name = "llmproxy"
version = "0.1.0"
edition = "2021"
publish = false

[dependencies]
rand = "*"
serde_json = "*"
serde = { version = "*", features = ["derive"] }
axum = "*"
hyper = { version = "*", features = ["full"] }
hyper-util = { version = "*", features = ["client-legacy", "http1", "tokio"] }
tokio = { version = "*", features = ["full"] }
clap = { version = "*", features = ["derive"] }
clap-verbosity-flag = "*"
colored = "*"
tracing = "*"
tracing-subscriber = { version = "*", features = ["env-filter"] }
