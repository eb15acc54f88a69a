[package]
name = "ipsubnet"
version = "0.1.0"
edition = "2021"
publish = false

[dependencies]
ipnet = "2"
rand = "0.9"
clap = { version = "4", features = ["derive"] }
