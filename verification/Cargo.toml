[package]
name = "buzz_daemon"
version = "0.1.0"
edition = "2021"
publish = false

[dependencies]
chrono = "*"
cron = "*"
hex = "*"
serde = { version = "1", features = ["derive"] }
serde_json = "1"
serde_yaml = "*"
sha2 = "*"
subtle = "*"
url = "2"
uuid = { version = "1", features = ["v4", "v5"] }
