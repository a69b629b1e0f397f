[package]
name = "embedded_wasm_button"
version = "0.1.0"
edition = "2021"
publish = false

[dependencies]
critical-section = { version = "1", features = ["std"] }
embedded-hal = "1"
dlmalloc = { version = "0.2", features = ["global"] }
wit-bindgen = "*"
