[package]
name = "system_info_exporter"
version = "0.1.0"
edition = "2021"
publish = false

[dependencies]
anyhow = "*"
axum = "*"
config = { version = "*", default-features = false, features = ["toml"] }
serde = { version = "*", features = ["derive"] }
serde_json = "*"
sysinfo = "*"
thiserror = "*"
tokio = { version = "*", features = ["rt-multi-thread", "macros", "net"] }
tracing = "*"
tracing-subscriber = { version = "*", features = ["env-filter", "json"] }
