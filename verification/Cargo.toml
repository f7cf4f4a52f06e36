[package]
name = "fileserve"
version = "0.1.0"
edition = "2021"
publish = false

[dependencies]
axum = { version = "*", features = ["multipart"] }
tokio = { version = "*", features = ["rt-multi-thread", "net", "fs", "io-util", "macros"] }
tokio-util = { version = "*", features = ["io"] }
futures = "*"
