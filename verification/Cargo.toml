[package]
name = "hyprfresh"
version = "0.1.0"
edition = "2021"
publish = false

[dependencies]
serde_json = "*"
serde = { version = "*", features = ["derive"] }
toml = "*"
tokio = { version = "*", features = ["rt-multi-thread", "net", "time", "sync", "macros", "io-util"] }
log = "*"
env_logger = "*"
clap = { version = "*", features = ["derive"] }
ctrlc = "*"
