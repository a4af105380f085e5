[package]
name = "spider_crab"
version = "0.1.0"
edition = "2021"
publish = false

[dependencies]
url = "2"
scraper = "*"
petgraph = "*"
reqwest = "*"
tokio = { version = "1", features = ["rt", "macros"] }
futures = "0.3"
clap = "4"
log = "0.4"
stderrlog = "*"
