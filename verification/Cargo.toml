[package]
name = "trinket"
version = "0.1.0"
edition = "2021"
publish = false

[dependencies]
cozy-chess = "0.3"
bytemuck = { version = "1", features = ["derive"] }
