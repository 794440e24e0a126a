[package]
name = "scissors"
version = "0.1.0"
edition = "2021"
publish = false

[dependencies]
shell-words = "1"
tempfile = "3"
thiserror = "2"
clap = { version = "4", features = ["derive"] }
