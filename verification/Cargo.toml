[package]
name = "haiku"
version = "0.1.0"
edition = "2021"
publish = false

[dependencies]
keystone = "*"
clap = { version = "3.2", features = ["derive"] }
