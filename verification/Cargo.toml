[package]
name = "walrus"
version = "0.1.0"
edition = "2021"
publish = false

[dependencies]
anyhow = "1"
chrono = "=0.4.45"
serde = { version = "=1.0.229", features = ["derive"] }
serde_json = "=1.0.154"
serde_yaml = "=0.9.34"
sysinfo = "=0.40.1"
toml_edit = "=0.25.17"
tokio = { version = "=1.54.1", features = ["sync", "time", "rt", "macros"] }
