[package]
name = "hyprdeck"
version = "0.1.0"
edition = "2021"
publish = false

[dependencies]
clap = { version = "4", features = ["derive"] }
clap_complete = "4"
dirs = "*"
inquire = "0.7"
libc = "0.2"
serde = { version = "1", features = ["derive"] }
serde_json = "1"
