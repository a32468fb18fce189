[package]
name = "game_of_life"
version = "0.1.0"
edition = "2021"
publish = false

[dependencies]
anyhow = "=1.0.104"
random_color = "=1.1.0"
leptos = { version = "=0.6.15", features = ["csr"] }
leptos-use = "0.13"
wasm-bindgen = "=0.2.129"
web-sys = { version = "=0.3.106", features = ["CanvasRenderingContext2d", "DomRect", "Element", "EventTarget", "HtmlButtonElement", "HtmlCanvasElement", "HtmlElement", "MouseEvent", "console"] }
