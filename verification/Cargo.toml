[package]
name = "umthombo"
version = "0.1.0"
edition = "2021"
publish = false

[dependencies]
pin-project-lite = "*"
spinny = "*"
waker-fn = "*"
