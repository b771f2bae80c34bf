[package]
name = "khimoo_portfolio"
version = "0.1.0"
edition = "2021"
publish = false

[dependencies]
anyhow = "1"
chrono = "0.4"
clap = { version = "4", features = ["derive"] }
pulldown-cmark = "0.9"
rapier2d = "0.22"
regex = "1"
serde = { version = "1", features = ["derive"] }
serde_json = "1"
serde-wasm-bindgen = "0.6"
serde_yaml = "0.9"
toml = "0.8"
wasm-bindgen = "0.2"
wasm-bindgen-futures = "0.4"
web-sys = { version = "0.3", features = ["Window", "Location", "console", "HtmlInputElement", "MouseEvent", "Event", "EventTarget", "Request", "RequestInit", "RequestMode", "Response"] }
yaml-front-matter = "0.1"
yew = { version = "0.21", features = ["csr"] }
yew-hooks = "0.3"
yew-router = "0.18"
