[package]
name = "rustbik"
version = "0.1.0"
edition = "2021"
publish = false

[dependencies]
three-d = { version = "*", default-features = false }
wasm-bindgen = "*"
web-sys = { version = "*", features = [
    "Window",
    "Performance",
    "HtmlCanvasElement",
    "WebGl2RenderingContext",
    "Event",
    "CustomEvent",
    "EventTarget",
    "ResizeObserverEntry",
    "ResizeObserverSize",
    "DomRect",
    "DomRectReadOnly",
    "console",
] }
console_error_panic_hook = "*"
