[package]
name = "timed_seq"
version = "0.1.0"
edition = "2021"
publish = false

[dependencies]
eva-common = { version = "=0.4.9", features = ["actions"] }
serde = { version = "=1.0.229", features = ["derive"] }
uuid = { version = "=1.27.0", features = ["v4", "serde"] }
