[package]
name = "gitig"
version = "0.1.0"
edition = "2021"
publish = false

[dependencies]
clap = { version = "4", features = ["derive"] }
pager = "*"
reqwest = { version = "0.12", features = ["blocking"] }
