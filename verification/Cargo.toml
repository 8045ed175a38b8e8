[package]
name = "profiling"
version = "0.1.0"
edition = "2021"
publish = false

[dependencies]
serde = { version = "=1.0.229", features = ["derive"] }
serde_json = "=1.0.154"
serde_plain = "=1.0.2"
Inflector = "=0.11.4"
ordered-float = "=5.5.1"
itertools = "=0.14.0"
wasm-bindgen = "=0.2.130"
js-sys = "=0.3.107"
web-sys = { version = "=0.3.107", features = ["Performance", "PerformanceEntry", "Window", "Document", "Element", "HtmlElement", "HtmlDivElement", "MouseEvent", "EventTarget", "Node", "console"] }
paste = "=1.0.15"
