[package]
name = "canopen"
version = "0.1.0"
edition = "2021"
publish = false

[dependencies]
rand = "0.9"
socketcan = "3"
tokio = { version = "1", features = ["rt", "rt-multi-thread", "sync", "time", "macros"] }
configparser = "3"
chrono = "0.4"
csv = "1"
serde = { version = "1", features = ["derive"] }
toml = "0.8"
directories = "5"
