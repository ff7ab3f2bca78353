[package]
name = "echodb"
version = "0.1.0"
edition = "2021"
publish = false

[dependencies]
arc-swap = "*"
imbl = "*"
tokio = { version = "1", default-features = false, features = ["sync"] }
