[package]
name = "mol3d"
version = "0.1.0"
edition = "2021"
publish = false

[dependencies]
serde_json = { version = "1", features = ["float_roundtrip", "preserve_order"] }
wasm-bindgen = "0.2"
web-sys = { version = "0.3", features = ["console", "Window", "Document", "Element", "HtmlCanvasElement", "CanvasRenderingContext2d"] }
