[package]
name = "wu"
version = "0.1.0"
edition = "2021"
publish = false

[dependencies]
aes-gcm = "*"
hex = "*"
rand = "*"
rust-argon2 = "*"
sha3 = "*"
