[package]
name = "impsupri"
version = "0.1.0"
edition = "2021"
publish = false

[dependencies]
clap = { version = "4", features = ["derive"] }
futures = "0.3"
get_if_addrs = "0.5"
ipnetwork = "0.20"
log = "0.4"
ping-rs = "0.1"
pretty_env_logger = "0.5"
reqwest = "0.12"
scraper = "0.22"
serde = { version = "1", features = ["derive"] }
serde_derive = "1"
serde_json = "1"
tokio = { version = "1", features = ["full"] }
