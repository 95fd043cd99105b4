[package]
name = "clock_timer"
version = "0.1.0"
edition = "2021"
publish = false

[dependencies]
ctrlc = "3"
wasm-bindgen = "0.2"
js-sys = "0.3"
web-sys = { version = "0.3", features = ["Window", "console"] }
console_error_panic_hook = "0.1"
