[package]
name = "castcore"
version = "0.1.0"
edition = "2021"
publish = false

[dependencies]
async-channel = "*"
async-native-tls = "*"
async-net = "*"
futures-util = "*"
smol = "*"
smol-timeout = "*"

[dev-dependencies]
serde_json = "*"
