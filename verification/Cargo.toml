[package]
name = "trellico"
version = "0.1.0"
edition = "2021"
publish = false

[dependencies]
portable-pty = "*"
notify = "*"
serde = { version = "*", features = ["derive"] }
serde_json = "*"
uuid = { version = "*", features = ["v4"] }
chrono = "*"
