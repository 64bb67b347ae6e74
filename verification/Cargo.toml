[package]
name = "holo"
version = "0.1.0"
edition = "2021"
publish = false

[dependencies]
mime_guess = "2"
rand = "0.8"
rppal = "*"
tokio = { version = "1", features = ["full"] }
hyper = { version = "1", features = ["full"] }
hyper-util = { version = "0.1", features = ["full"] }
http-body-util = "0.1"
reqwest = { version = "0.12", default-features = false }
image = { version = "0.25", default-features = false, features = ["png", "jpeg"] }
