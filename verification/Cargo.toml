[package]
name = "imgfloat"
version = "0.1.0"
edition = "2021"
publish = false

[dependencies]
tokio = { version = "*", features = ["full"] }
axum = { version = "*", features = ["ws"] }
futures = "*"

[dev-dependencies]
serde = { version = "*", features = ["derive"] }
serde_json = "*"
