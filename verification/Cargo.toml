[package]
name = "ethr_resolver"
version = "0.1.0"
edition = "2021"
publish = false

[dependencies]
base64 = "0.22"
bs58 = "0.5"
ethers = "2"
serde_json = "1"
