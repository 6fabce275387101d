[package]
name = "restaurant_reviews"
version = "0.1.0"
edition = "2021"
publish = false

[dependencies]
serde = { version = "1", features = ["derive"] }
wasm-bindgen = "*"
web-sys = { version = "*", features = ["Event", "EventTarget", "HtmlInputElement", "InputEvent", "MouseEvent", "console"] }
yew = { version = "*", features = ["csr"] }
yew-router = "*"
