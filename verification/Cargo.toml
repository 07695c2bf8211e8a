[package]
name = "sayonara_wipe"
version = "0.1.0"
edition = "2021"
publish = false

[dependencies]
rand = "0.8"
anyhow = "1"
chrono = "0.4"
serde = { version = "1", features = ["derive"] }
serde_json = "1"
uuid = { version = "1", features = ["v4"] }
clap = { version = "4", features = ["derive"] }
libc = "0.2"
env_logger = "0.10"
signal-hook = "0.3"
tokio = { version = "1", features = ["rt-multi-thread", "macros", "time"] }
futures = "0.3"
