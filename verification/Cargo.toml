[package]
name = "king_of_the_hill"
version = "0.1.0"
edition = "2021"
publish = false

[dependencies]
glam = "0.29"
hecs = "0.10"
js-sys = "0.3"
wasm-bindgen = "0.2"
