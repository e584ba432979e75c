[package]
name = "shape_gateway"
version = "0.1.0"
edition = "2021"
publish = false

[dependencies]
url = "*"
uuid = "*"
axum = "*"
reqwest = { version = "*", default-features = false, features = ["stream"] }
serde = { version = "*", features = ["derive"] }
serde_json = "*"
futures = "*"
secrecy = "*"
