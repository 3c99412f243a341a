[package]
name = "wasm_dom"
version = "0.1.0"
edition = "2021"
publish = false

[dependencies]
content-security-policy = "=0.9.0"
