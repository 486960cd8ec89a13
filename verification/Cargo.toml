[package]
name = "pngme"
version = "0.1.0"
edition = "2021"
publish = false

[dependencies]
clap = { version = "=4.6.7", features = ["derive"] }
crc = "=3.4.0"
iced = { version = "0.13", default-features = false, features = ["tiny-skia"] }
