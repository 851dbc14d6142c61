[package]
name = "mnist"
version = "0.1.0"
edition = "2021"
publish = false

[dependencies]
easy-ml = "1"
js-sys = "0.3.106"
wasm-bindgen = "0.2.129"
web-sys = { version = "0.3.106", features = ["console"] }
wee_alloc = "0.4.5"
