[package]
name = "appfile"
version = "0.1.0"
edition = "2021"
publish = false

[dependencies]
ahqstore-types = "~2.0"
serde_json = "=1.0.154"
