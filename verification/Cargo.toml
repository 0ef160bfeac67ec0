[package]
name = "ruleco"
version = "0.1.0"
edition = "2021"
publish = false

[dependencies]
serde = "*"
serde_json = "*"
uuid = { version = "*", features = ["v7"] }
zmq = "*"
