[package]
name = "hoppscotch_relay"
version = "0.1.0"
edition = "2021"
publish = false

[dependencies]
curl = "*"
openssl = "*"
infer = "*"
serde_json = "1"
