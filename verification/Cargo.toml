[package]
name = "formula"
version = "0.1.0"
edition = "2021"
publish = false

[dependencies]
chrono = "*"
rand = "*"
urlencoding = "*"
wasm-bindgen = "*"
