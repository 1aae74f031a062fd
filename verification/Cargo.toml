[package]
name = "wasm_safe_mutex"
version = "0.2.0"
edition = "2021"
publish = false

[dependencies]
wasm-bindgen = "*"
wasm_thread = "*"
web-time = "*"
