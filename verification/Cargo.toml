[package]
name = "mtproto"
version = "0.1.0"
edition = "2021"
publish = false

[dependencies]
aes = "0.8"
ige = "0.1"
sha1 = "0.10"
num = "0.4"
prime_factorization = "1"
rsa = "0.9"
chrono = "0.4"
rand = "0.9"
tokio = { version = "1", features = ["rt-multi-thread", "macros", "net", "io-util"] }
hex = "0.4"
base64 = "0.22"
bytes = "1"
i256 = "*"
