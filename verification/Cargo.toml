[package]
name = "hips_atlas"
version = "0.1.0"
edition = "2021"
publish = false

[dependencies]
cgmath = "0.18"
cdshealpix = "*"
serde = { version = "1", features = ["derive"] }
wasm-bindgen = "0.2"
js-sys = "0.3"
serde-wasm-bindgen = "*"
web-sys = { version = "0.3", features = ["WebGl2RenderingContext", "WebGlRenderingContext", "WebGlTexture", "WebGlFramebuffer", "HtmlImageElement", "HtmlCanvasElement", "ImageBitmap"] }
