[package]
name = "quiz_trainer"
version = "0.1.0"
edition = "2021"
publish = false

[dependencies]
ansi_term = "*"
rand = "*"
serde = { version = "*", features = ["derive"] }
serde_yaml = "*"
