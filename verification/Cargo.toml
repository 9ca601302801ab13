[package]
name = "solidhunter"
version = "0.1.0"
edition = "2021"
publish = false

[dependencies]
glob = "*"
proc-macro2 = { version = "*", features = ["span-locations"] }
serde_json = "*"
syn = "*"
syn-solidity = "*"
