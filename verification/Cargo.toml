[package]
name = "rustris"
version = "0.1.0"
edition = "2021"
publish = false

[dependencies]
rand = "0.9"
leptos = { version = "0.8", features = ["csr"] }
leptos-use = "*"
reactive_stores = "0.2"
console_error_panic_hook = "0.1"
