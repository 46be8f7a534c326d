[package]
name = "paper_utils"
version = "0.1.0"
edition = "2021"
publish = false

[dependencies]
byteorder = "1"
smallvec = "1"
thiserror = "1"
tokio = { version = "1", features = ["io-util", "net"] }
