[package]
name = "videosub"
version = "0.1.0"
edition = "2021"
publish = false

[dependencies]
anyhow = "=1.0.104"
clap = { version = "=3.2.25", features = ["derive"] }
clap-verbosity-flag = "=1.0.1"
env_logger = "=0.9.3"
futures-util = "=0.3.34"
indicatif = "=0.17.11"
log = "=0.4.34"
reqwest = { version = "=0.11.27", features = ["stream"] }
scraper = { version = "=0.13.0", features = ["deterministic"] }
subparse = "=0.7.0"
tokio = { version = "=1.54.1", features = ["full"] }
