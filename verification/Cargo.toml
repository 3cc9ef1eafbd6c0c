[package]
name = "evo_agent_sdk"
version = "0.1.0"
edition = "2021"
publish = false

[dependencies]
serde_json = "*"
toml = "*"
anyhow = "*"
serde = { version = "*", features = ["derive"] }
reqwest = { version = "*", default-features = false, features = ["json", "stream"] }
tokio = { version = "*", features = ["rt-multi-thread", "macros", "sync", "time", "process", "fs"] }
rust_socketio = { version = "*", features = ["async"] }
futures-util = "*"
