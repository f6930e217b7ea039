[package]
name = "vraw_convert"
version = "0.2.0"
edition = "2021"
publish = false

[dependencies]
mp4 = "*"
chrono = "*"
clap = { version = "*", features = ["derive"] }
msgbox = "*"
