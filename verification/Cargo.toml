[package]
name = "socks5_client"
version = "0.1.0"
edition = "2021"
publish = false

[dependencies]
log = "0.4"
tokio = { version = "0.2", features = ["tcp", "io-util"] }
