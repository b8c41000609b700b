[package]
name = "hurlss"
version = "0.1.0"
edition = "2021"
publish = false

[dependencies]
hurl_core = "=4.1.0"
