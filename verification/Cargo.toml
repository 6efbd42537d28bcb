[package]
name = "rusty_night"
version = "0.1.0"
edition = "2021"
publish = false

[dependencies]
rand = "0.8"
web-time = "1"
pixels = "0.13"
winit = "0.28"
winit_input_helper = "0.14"
pollster = "0.3"
env_logger = "0.10"
log = "0.4"
error-iter = "0.4"
console_error_panic_hook = "0.1"
console_log = "1"
wasm-bindgen = "0.2"
wasm-bindgen-futures = "0.4"
web-sys = { version = "0.3", features = ["Document", "Element", "Event", "HtmlElement", "Node", "Window"] }
