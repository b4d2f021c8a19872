[package]
name = "hackrf_dsp"
version = "0.1.0"
edition = "2021"
publish = false

[dependencies]
bytemuck = "*"
num-complex = "=0.4.6"
rustfft = "=6.4.1"
wasm-bindgen = "*"
js-sys = "=0.3.106"
console_error_panic_hook = "=0.1.7"
