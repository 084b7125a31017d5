[package]
name = "wasm_oxi_time"
version = "0.1.0"
edition = "2021"
publish = false

[dependencies]
csv = "=1.4.0"
uuid = { version = "=1.29.0", features = ["v4", "js"] }
oxigraph = { version = "=0.4.11", default-features = false, features = ["js"] }
wasm-bindgen = "=0.2.130"
js-sys = "=0.3.107"
web-sys = { version = "=0.3.107", features = ["HtmlInputElement", "FileList", "File", "FileReader", "ProgressEvent", "Blob", "EventTarget"] }
