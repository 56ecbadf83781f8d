[package]
name = "morelike"
version = "0.1.0"
edition = "2021"
publish = false

[dependencies]
twox-hash = "1"
crc32c-hw = "0.1"
ignore = "0.4"
time = "0.1"
indicatif = "*"
console = "*"
