[package]
name = "notes"
version = "0.1.0"
edition = "2021"
publish = false

[dependencies]
regex = "*"
glob = "*"
clap = { version = "*", features = ["derive"] }
