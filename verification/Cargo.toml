[package]
name = "image2"
version = "0.1.0"
edition = "2021"
publish = false

[dependencies]
blockhash = "*"
half = "*"
euclid = "*"
thiserror = "*"
memmap2 = "*"
serde = { version = "*", features = ["derive"] }
