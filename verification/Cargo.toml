[package]
name = "kareki"
version = "0.1.0"
edition = "2021"
publish = false

[dependencies]
aes = "0.7"
cfb8 = "0.7"
flate2 = "1"
openssl = "0.10"
mojang-api = "0.6"
tokio = { version = "1", features = ["rt-multi-thread", "net", "io-util", "time", "macros", "sync"] }
flume = "0.10"
futures-lite = "2"
image = "0.23"
base64 = "0.13"
once_cell = "1"
