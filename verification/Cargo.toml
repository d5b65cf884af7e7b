[package]
name = "captcha_image"
version = "0.1.0"
edition = "2021"
publish = false

[dependencies]
fontdue = "0.7"
image = { version = "0.24", default-features = false }
imageproc = { version = "0.23", default-features = false }
png = "0.17"
