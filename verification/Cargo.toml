[package]
name = "minihttp"
version = "0.1.0"
edition = "2021"
publish = false

[dependencies]
nom = "7"
tokio = { version = "1", features = ["full"] }
