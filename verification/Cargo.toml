[package]
name = "flowsdk"
version = "0.1.0"
edition = "2021"
publish = false

[dependencies]
libc = "=0.2.191"
io-uring = "=0.7.15"
dashmap = "6"
