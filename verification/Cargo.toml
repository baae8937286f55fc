[package]
name = "dexvm"
version = "0.1.0"
edition = "2021"
publish = false

[dependencies]
aes = "=0.8.4"
hmac = "=0.12.1"
sha1 = "=0.10.7"
sha2 = "=0.10.9"
md-5 = "=0.10.6"
pbkdf2 = { version = "=0.12.2", default-features = false, features = ["hmac"] }
base64 = "=0.22.1"
miniz_oxide = "=0.8.9"

[dev-dependencies]
aes-gcm = "0.10"
