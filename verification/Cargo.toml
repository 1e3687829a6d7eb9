[package]
name = "kvs"
version = "0.1.0"
edition = "2021"
publish = false

[dependencies]
aes-gcm = "0.10"
base64 = "0.22"
chrono = { version = "0.4", default-features = false, features = ["clock"] }
dirs = "5"
rand = "0.8"
ripemd = "0.1"
rsa = "0.9"
sha2 = "0.10"
static-dh-ecdh = "*"
walkdir = "2"
