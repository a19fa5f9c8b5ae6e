[package]
name = "rustp2p"
version = "0.1.0"
edition = "2021"
publish = false

[dependencies]
sha2 = "0.10"
ring = "0.17"
rand = "0.9"
rcgen = "0.13"
rustls = { version = "0.23", default-features = false, features = ["ring", "std"] }
