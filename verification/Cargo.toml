[package]
name = "meteoritus"
version = "0.2.1"
edition = "2021"
publish = false

[dependencies]
base64 = "*"
rocket = "0.5.1"
serde_json = "*"
uuid = { version = "*", features = ["v4"] }
