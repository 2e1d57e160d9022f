[package]
name = "shooter"
version = "0.1.0"
edition = "2021"
publish = false

[dependencies]
anyhow = "1"
axum = { version = "0.7", features = ["ws"] }
console_error_panic_hook = "0.1"
js-sys = "0.3"
postcard = { version = "1", features = ["use-std"] }
serde = { version = "1", features = ["derive"] }
tokio = { version = "1", features = ["full"] }
tracing = "0.1"
tracing-subscriber = { version = "0.3", features = ["env-filter"] }
wasm-bindgen = "0.2"
web-sys = { version = "0.3", features = ["BinaryType", "CanvasRenderingContext2d", "Document", "DomRect", "Element", "EventTarget", "HtmlCanvasElement", "HtmlElement", "KeyboardEvent", "Location", "MessageEvent", "MouseEvent", "WebSocket", "Window"] }
