[package]
name = "file_identifier"
version = "0.1.0"
edition = "2021"
publish = false

[dependencies]
tokio = { version = "*", default-features = false, features = ["sync"] }
quinn = { version = "*", default-features = false }
futures-concurrency = "*"
lending-stream = "*"
