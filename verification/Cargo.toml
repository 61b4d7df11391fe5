[package]
name = "flocking"
version = "0.1.0"
edition = "2021"
publish = false

[dependencies]
wasm-bindgen = "=0.2.129"
console_error_panic_hook = "=0.1.7"
lazy_static = "=1.5.1"
