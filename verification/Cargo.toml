[package]
name = "compass"
version = "0.1.0"
edition = "2021"
publish = false

[dependencies]
celestial-hub-astrolabe = "*"
ariadne = "*"
clap = { version = "*", features = ["derive"] }
