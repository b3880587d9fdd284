[package]
name = "crawler"
version = "0.1.0"
edition = "2021"
publish = false

[dependencies]
url = "2"
scraper = "*"
hashbrown = "0.9"
reqwest = { version = "*", default-features = false, features = ["blocking"] }
clap = "4"
serde = "*"
serde_derive = "*"
serde_json = "1"
log = "*"
env_logger = "*"
