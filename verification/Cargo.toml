[package]
name = "rule"
version = "0.1.0"
edition = "2021"
publish = false

[dependencies]
serde = "1"
serde_json = "1"
glob = "0.3"
regex = "1"
