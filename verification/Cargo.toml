[package]
name = "easy_command"
version = "0.1.0"
edition = "2021"
publish = false

[dependencies]
evalexpr = "*"
serde = { version = "*", features = ["derive"] }
serde_json = "*"
