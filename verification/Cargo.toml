[package]
name = "engine_z"
version = "0.1.0"
edition = "2021"
publish = false

[dependencies]
anyhow = "1"
configr = "*"
futures = "0.3"
hyper = { version = "0.14", features = ["full"] }
serde = { version = "1", features = ["derive"] }
tokio = { version = "1", features = ["full"] }
