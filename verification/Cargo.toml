[package]
name = "lama_rs"
version = "0.1.0"
edition = "2021"
publish = false

[dependencies]
bitvec = "1"
clap = { version = "4", features = ["derive"] }
