[package]
name = "password_generator"
version = "0.1.0"
edition = "2021"
publish = false

[dependencies]
rand = "=0.8.8"
yew = { version = "=0.21.0", features = ["csr"] }
web-sys = { version = "=0.3.106", features = ["Document", "Element", "HtmlInputElement", "HtmlLiElement", "MouseEvent", "Node", "NodeList", "Range", "Selection", "Window", "console"] }
wasm-bindgen = "=0.2.129"
console_error_panic_hook = "=0.1.7"
