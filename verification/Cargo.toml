[package]
name = "superbit"
version = "0.1.0"
edition = "2021"
publish = false

[dependencies]
xxhash-rust = { version = "0.8", features = ["xxh3"] }
siphasher = "1"

[dev-dependencies]
rand = "0.8"
