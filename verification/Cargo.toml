[package]
name = "promise_store"
version = "0.1.0"
edition = "2021"

[dependencies]
rustc-hash = "1.1.0"
