[package]
name = "wakecore"
version = "0.1.0"
edition = "2021"
publish = false

[dependencies]
uuid = { version = "*", features = ["v4"] }
chrono = "*"
serde_json = "*"
directories = "*"
reqwest = { version = "*", default-features = false, features = ["blocking"] }
