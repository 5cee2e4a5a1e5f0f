[package]
name = "media_range"
version = "0.1.0"
edition = "2021"
publish = false

[dependencies]
mime_guess = "*"
urlencoding = "*"
