[package]
name = "dirbrowser"
version = "0.1.0"
edition = "2021"
publish = false

[dependencies]
mime = "0.3.17"
termion = "1.5.6"
