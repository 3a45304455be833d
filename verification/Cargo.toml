[package]
name = "textfsm-rs"
version = "0.1.0"
edition = "2021"
publish = false

[dependencies]
regex = "1"
fancy-regex = "*"
csv = "1"
serde = { version = "1", features = ["derive"] }
