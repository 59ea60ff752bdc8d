[package]
name = "arxiv"
version = "0.2.0"
edition = "2021"
publish = false

[dependencies]
time = { version = "0.3", default-features = false, features = ["std", "parsing"] }
