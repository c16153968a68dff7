[package]
name = "festive_puzzles"
version = "0.1.0"
edition = "2021"
publish = false

[dependencies]
axum = "*"
serde = { version = "1", features = ["derive"] }
shuttle-axum = "*"
shuttle-runtime = "*"
tokio = "1"

[dev-dependencies]
serde_json = "1"
