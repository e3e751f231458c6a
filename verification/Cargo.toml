[package]
name = "nwd1_webtransport"
version = "0.1.0"
edition = "2021"
publish = false

[dependencies]
bytes = "1"
netid64 = "*"
nwd1 = "*"
tokio = { version = "1", features = ["io-util", "rt"] }
