[package]
name = "repolens"
version = "0.1.0"
edition = "2021"
publish = false

[dependencies]
git2 = "*"
serde = { version = "*", features = ["derive"] }
tokio = { version = "*", features = ["rt"] }
