[package]
name = "sigscan"
version = "0.1.0"
edition = "2021"
publish = false

[dependencies]
memchr = "*"
iced-x86 = { version = "*", default-features = false, features = ["std", "decoder"] }
libc = "*"
log = "*"
ctor = "*"
