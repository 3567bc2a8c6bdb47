[package]
name = "proxy_telegram_bot"
version = "0.1.0"
edition = "2021"
publish = false

[dependencies]
teloxide = "0.3"
tokio = { version = "0.2", features = ["rt-threaded", "macros"] }
config = "0.10"
log = "0.4"
pretty_env_logger = "0.4"
