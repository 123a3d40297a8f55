[package]
name = "mediafire_downloader"
version = "0.1.0"
edition = "2021"
publish = false

[dependencies]
md_api = "*"
reqwest = { version = "*", features = ["stream"] }
tokio = { version = "*", features = ["fs", "io-util", "rt-multi-thread", "macros"] }
futures = "*"
hex = "*"
md5 = "*"
ring = "*"
