[package]
name = "transaction_parser"
version = "0.1.0"
edition = "2021"
publish = false

[dependencies]
rust_decimal = "1"
serde = { version = "1", features = ["derive"] }
tokio = { version = "1", features = ["rt-multi-thread", "macros", "sync", "fs", "io-util", "io-std"] }
tokio-stream = "0.1"
csv-async = { version = "1", features = ["tokio"] }
