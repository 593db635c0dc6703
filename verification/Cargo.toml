[package]
name = "newsletter"
version = "0.1.0"
edition = "2021"
publish = false

[dependencies]
argon2 = "*"
base64 = "*"
hmac = "*"
sha2 = "*"
rand = "*"
unicode-segmentation = "*"
urlencoding = "*"
