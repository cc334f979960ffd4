[package]
name = "ffpb"
version = "0.1.2"
edition = "2021"

[dependencies]
kdam = { version = "0.5", features = ["rich"] }
regex = "1"
