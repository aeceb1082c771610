[package]
name = "neum"
version = "0.1.0"
edition = "2021"
publish = false

[dependencies]
regex = "1"
itertools = "0.10"
clap = { version = "4", features = ["derive"] }
