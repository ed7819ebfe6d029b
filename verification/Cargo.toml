[package]
name = "shell_mommy"
version = "0.1.0"
edition = "2021"
publish = false

[dependencies]
fastrand = "2"
ansi_term = "0.12"
serde = { version = "1", features = ["derive"] }
serde_json = "1"
