[package]
name = "emit_web"
version = "0.2.0"
edition = "2021"
publish = false

[dependencies]
wasm-bindgen = "0.2"
js-sys = "0.3"
serde = "1"
console_error_panic_hook = "0.1"
