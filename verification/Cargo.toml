[package]
name = "rbot"
version = "0.1.0"
edition = "2021"
publish = false

[dependencies]
serde_json = "1"
soup = "0.5"
url = "2"
chrono = "0.4"
reqwest = { version = "0.11", features = ["cookies", "json"] }
tokio = { version = "1", features = ["macros", "rt-multi-thread"] }
