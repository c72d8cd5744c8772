[package]
name = "adblock"
version = "0.1.0"
edition = "2021"
publish = false

[dependencies]
idna = "=1.1.0"
regex = "=1.13.1"
base64 = "=0.22.1"
rustc-hash = "=2.1.3"
url = "=2.5.8"
seahash = "4"
