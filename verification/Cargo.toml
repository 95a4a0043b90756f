[package]
name = "qwy3"
version = "0.1.0"
edition = "2021"
publish = false

[dependencies]
bitvec = "1"
serde = { version = "1", features = ["derive"] }
rmp-serde = "1"
flate2 = "1"
