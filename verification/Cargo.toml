[package]
name = "silvapi"
version = "0.1.0"
edition = "2021"
publish = false

[dependencies]
uuid = { version = "1", features = ["v4"] }
serde_json = "1"
chrono = "0.4"
futures = "0.3"
