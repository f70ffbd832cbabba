[package]
name = "downloader"
version = "0.1.0"
edition = "2021"
publish = false

[dependencies]
anyhow = "=1.0.104"
console = { version = "0.16", features = ["std"] }
futures-util = "=0.3.34"
indicatif = "=0.16.2"
rand = "=0.8.8"
reqwest = { version = "=0.11.27", features = ["stream"] }
structopt = "=0.3.26"
tokio = { version = "=1.54.1", features = ["macros", "rt-multi-thread"] }
tracing-subscriber = "=0.3.23"
