[package]
name = "rusterizer"
version = "0.1.0"
edition = "2021"
publish = false

[dependencies]
anyhow = "1"
wasm-bindgen = "0.2"
web-sys = { version = "0.3", features = ["CanvasRenderingContext2d", "HtmlCanvasElement", "ImageData", "MouseEvent"] }
yew = "0.18"
