[package]
name = "silex_server"
version = "0.1.0"
edition = "2021"
publish = false

[dependencies]
uuid = { version = "*", features = ["v4"] }
chrono = "*"
whoami = "*"
serde_json = "*"
tokio = { version = "*", features = ["fs", "rt", "macros", "rt-multi-thread"] }
dotenvy = "*"
