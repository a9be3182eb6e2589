[package]
name = "cyprus"
version = "0.1.0"
edition = "2021"
publish = false

[dependencies]
lofty = "*"
mp4 = "*"
serde = { version = "*", features = ["derive"] }
serde_json = "*"
