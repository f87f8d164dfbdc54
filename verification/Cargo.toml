[package]
name = "ramen"
version = "0.1.0"
edition = "2021"
publish = false

[dependencies]
sha2 = "*"
bytes = "*"
futures = "*"
tokio = { version = "*", features = ["net", "rt-multi-thread", "macros", "time"] }
tokio-util = { version = "*", features = ["codec"] }
secp256k1 = "*"
