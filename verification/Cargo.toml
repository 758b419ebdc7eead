[package]
name = "wasmtime_wit_bindgen"
version = "0.1.0"
edition = "2021"
publish = false

[dependencies]
heck = "0.4"
wit-parser = "0.11"
anyhow = "1"
thiserror = "1"
wiggle = { version = "13", default-features = false }
