[package]
name = "doomfire"
version = "0.1.0"
edition = "2021"
publish = false

[dependencies]
wasm-bindgen = "0.2"
web-sys = { version = "0.3", features = ["Document", "Element", "Event", "EventTarget", "HtmlCanvasElement", "HtmlElement", "Node", "Window"] }
winit = { version = "0.28", default-features = false, features = ["x11"] }
