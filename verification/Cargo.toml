[package]
name = "web_socket"
version = "0.1.0"
edition = "2021"
publish = false

[dependencies]
base64 = "0.13"
sha1 = "0.10"
fastrand = "2"
tokio = { version = "1", features = ["rt", "net", "io-util", "macros", "rt-multi-thread"] }
