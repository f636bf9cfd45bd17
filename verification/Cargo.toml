[package]
name = "icsqr"
version = "0.1.0"
edition = "2021"
publish = false

[dependencies]
ical = { version = "*", features = ["generator"] }
qrcode = "*"
image = { version = "*", default-features = false, features = ["png"] }
