[package]
name = "lan_chat"
version = "0.1.0"
edition = "2021"
publish = false

[dependencies]
base64 = "*"
chrono = "*"
uuid = { version = "*", features = ["v4"] }
whoami = "*"
local-ip-address = "*"
log = "*"
