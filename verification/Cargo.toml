[package]
name = "rbac_core"
version = "0.1.0"
edition = "2021"
publish = false

[dependencies]
argon2 = "0.5"
rand = "0.8"
time = "0.3"
clap = { version = "4", features = ["derive"] }
config = "*"
serde = { version = "1", features = ["derive"] }
serde_json = "1"
