[package]
name = "custom_blockchain"
version = "0.1.0"
edition = "2021"
publish = false

[dependencies]
sha2 = "*"
p256 = "*"
uuid = { version = "*", features = ["v4"] }
data-encoding = "*"
