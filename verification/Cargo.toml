[package]
name = "utls"
version = "0.1.0"
edition = "2021"
publish = false

[dependencies]
boring-sys = "5"
brotli = "*"
pyo3 = { version = "0.28", features = ["abi3", "extension-module"] }
