[package]
name = "botloader"
version = "0.1.0"
edition = "2021"
publish = false

[dependencies]
twilight-model = "*"
twilight-util = { version = "*", features = ["permission-calculator"] }
chrono = "*"

[dev-dependencies]
serde_json = "*"
