[package]
name = "crypt"
version = "0.1.0"
edition = "2021"
publish = false

[dependencies]
aes-gcm = "=0.11.1"
aes-gcm-siv = "=0.12.1"
base64 = "=0.23.1"
wasm-bindgen = "*"
