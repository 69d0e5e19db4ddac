[package]
name = "fff_codec"
version = "0.1.0"
edition = "2021"
publish = false

[dependencies]
anyhow = "1"
embedded-graphics = "0.8"
image = { version = "0.25", default-features = false, features = ["png"] }
minijinja = { version = "2", features = ["loader"] }
serde = { version = "1", features = ["derive"] }
