[package]
name = "flow_field"
version = "0.1.0"
edition = "2021"
publish = false

[dependencies]
bracket-noise = "*"
bracket-random = "*"
cgmath = "*"
wasm-bindgen = "*"
web-sys = { version = "*", features = ["CanvasRenderingContext2d"] }
