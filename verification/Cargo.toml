[package]
name = "workflow_manager"
version = "0.1.0"
edition = "2021"
publish = false

[dependencies]
serde = { version = "1", features = ["derive"] }
serde_yaml = "0.9"
serde_json = "1"
ratatui = "*"
fuzzy-matcher = "0.3"
clap = { version = "4", features = ["derive"] }
tokio = { version = "1", features = ["full"] }
futures = "0.3"
anyhow = "1"
chrono = "0.4"
uuid = { version = "1", features = ["v4"] }
dirs = "*"
directories = "*"
