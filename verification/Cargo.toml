[package]
name = "chess_engine"
version = "0.3.0"
edition = "2021"
publish = false

[dependencies]
shakmaty = "0.27"
wasm-bindgen = "0.2"
console_error_panic_hook = "0.1"
