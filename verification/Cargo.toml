[package]
name = "anthere"
version = "0.1.0"
edition = "2021"
publish = false

[dependencies]
password-auth = "*"
rmp-serde = "*"
tower-sessions-core = "*"
