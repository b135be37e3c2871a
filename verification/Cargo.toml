[package]
name = "password_manager"
version = "0.1.0"
edition = "2021"
publish = false

[dependencies]
aes-gcm = "*"
base64 = "*"
sha2 = "*"
csv = "*"
