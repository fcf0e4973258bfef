[package]
name = "otd_core"
version = "0.1.0"
edition = "2021"
publish = false

[dependencies]
md-5 = "0.10"
rc2 = "0.8"
cbc = { version = "0.1", features = ["alloc", "block-padding"] }
cipher = { version = "0.4", features = ["alloc", "block-padding"] }
serde = { version = "1", features = ["derive"] }
serde_json = "1"
clap = { version = "4", features = ["derive"] }
anyhow = "1"
thiserror = "1"
tracing = "0.1"
tracing-subscriber = { version = "0.3", features = ["env-filter"] }
