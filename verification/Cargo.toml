[package]
name = "mtcp"
version = "0.1.0"
edition = "2021"
publish = false

[dependencies]
clap = { version = "*", features = ["derive"] }
env_logger = "*"
log = "*"
serde = { version = "*", features = ["derive"] }
tokio = { version = "*", features = ["rt-multi-thread", "net", "io-util", "sync", "macros"] }
toml = "*"
