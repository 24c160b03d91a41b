[package]
name = "ossify"
version = "0.1.0"
edition = "2021"
publish = false

[dependencies]
opendal = { version = "=0.54.1", features = ["services-fs", "services-s3", "services-oss"] }
tokio = { version = "=1.53.2", features = ["rt", "fs", "io-util"] }
