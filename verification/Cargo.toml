[package]
name = "extjson"
version = "0.1.0"
edition = "2021"

[dependencies]
base64 = "0.13"
chrono = { version = "0.4", default-features = false, features = ["std"] }
hex = "0.4"
js-sys = "0.3"
wasm-bindgen = "0.2"
