[package]
name = "micro_jam_engine"
version = "0.1.0"
edition = "2021"
publish = false

[dependencies]
line_drawing = "1"
image = { version = "0.24", default-features = false, features = ["png"] }
vek = "0.15"
rusttype = "0.9"
winit = "0.28"
softbuffer = "0.2"
instant = "0.1"
lazy_static = "1"
wasm-bindgen = "0.2"
web-sys = { version = "0.3", features = ["Window", "Document", "HtmlElement", "Node", "Element"] }
js-sys = "0.3"
console_error_panic_hook = "0.1"
