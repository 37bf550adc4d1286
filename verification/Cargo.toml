[package]
name = "wextrunk"
version = "0.1.0"
edition = "2021"
publish = false

[dependencies]
lol_html = "*"
wasm-bindgen = "*"
gloo-console = "*"
leptos = { version = "*", features = ["csr"] }
