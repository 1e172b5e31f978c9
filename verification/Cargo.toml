[package]
name = "fetch_bridge"
version = "0.1.0"
edition = "2021"
publish = false

[dependencies]
async-trait = "0.1"
console_error_panic_hook = "0.1"
futures = "0.3"
js-sys = "0.3"
once_cell = "1"
tokio = { version = "=1.54.1", default-features = false }
tracing = "0.1"
virtual-fs = { version = "=0.600.1", default-features = false }
wasm-bindgen = "0.2"
wasmer = { version = "=6.0.1", default-features = false, features = ["sys", "wat"] }
