[package]
name = "cxs"
version = "0.2.4"
edition = "2021"
publish = false

[dependencies]
csv = "1"
regex = "1"
serde_json = "1"
