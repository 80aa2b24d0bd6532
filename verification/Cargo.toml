[package]
name = "gamekit"
version = "0.1.0"
edition = "2021"
publish = false

[dependencies]
indexmap = "2"
image = { version = "0.24", default-features = false, features = ["png", "bmp"] }
bytemuck = "1"
