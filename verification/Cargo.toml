[package]
name = "live2d_mini"
version = "0.1.0"
edition = "2021"
publish = false

[dependencies]
image = { version = "0.24", default-features = false, features = ["png"] }
miniquad = "0.3"
serde = { version = "1", features = ["derive"] }
serde_json = "1"
