[package]
name = "webspider"
version = "0.1.0"
edition = "2021"
publish = false

[dependencies]
scraper = "*"
rand = "0.8"
reqwest = { version = "*", default-features = false }
tokio = { version = "*", features = ["macros", "rt-multi-thread", "time"] }
log = "*"
env_logger = "*"
