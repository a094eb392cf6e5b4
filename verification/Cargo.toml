[package]
name = "keytool"
version = "0.1.0"
edition = "2021"
publish = false

[dependencies]
rsa = { version = "=0.9.10", features = ["getrandom"] }
x509-parser = "=0.18.1"
clap = { version = "=4.6.7", features = ["derive"] }
colored = "=3.1.1"
rcgen = "=0.14.10"
