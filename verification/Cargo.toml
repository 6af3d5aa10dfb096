[package]
name = "circuit_template"
version = "0.1.0"
edition = "2021"
publish = false

[dependencies]
serde = { version = "1", features = ["derive"] }
serde_yaml = "0.8"
url = "2"
uuid = { version = "1", features = ["v4"] }
dirs = "*"
