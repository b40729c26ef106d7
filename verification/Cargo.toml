[package]
name = "pkcs7_decoder"
version = "0.1.0"
edition = "2021"
publish = false

[dependencies]
bcder = "*"
chrono = { version = "0.4", default-features = false, features = ["std"] }
hex = "0.4"
pem = "*"
