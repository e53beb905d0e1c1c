[package]
name = "metalpal"
version = "0.1.0"
edition = "2021"
publish = false

[dependencies]
chrono = { version = "=0.4.45", features = ["serde"] }
clap = { version = "4", features = ["derive", "env"] }
env_logger = "0.10"
home = "0.5"
log = "0.4"
prettytable-rs = "0.10"
regex = "=1.13.1"
reqwest = { version = "0.11", features = ["json"] }
rspotify = "0.12"
scraper = { version = "=0.17.1", default-features = false, features = ["deterministic"] }
serde = { version = "1", features = ["derive"] }
serde_json = "1"
slack-rust = "0.0.1-alpha"
thiserror = "1"
tokio = { version = "1", features = ["macros", "rt-multi-thread"] }
voca_rs = "=1.15.2"
