[package]
name = "hornet_onion"
version = "0.1.0"
edition = "2021"
publish = false

[dependencies]
aes-gcm = "*"
hkdf = "*"
sha2 = "*"
rand = "*"
tokio = { version = "1", features = ["rt-multi-thread", "net", "time", "macros"] }
