[package]
name = "rustycheckers"
version = "0.1.0"
edition = "2021"
publish = false

[dependencies]
lazy_static = "1"
mut_static = "*"
serde = { version = "1", features = ["derive"] }
serde_derive = "1"
serde-wasm-bindgen = "*"
wasm-bindgen = "0.2"
