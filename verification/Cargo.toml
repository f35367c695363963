[package]
name = "dynspire"
version = "0.1.0"
edition = "2021"
publish = false

[dependencies]
form_urlencoded = "1"
libloading = "0.8"
proc-macro2 = "1"
pyo3 = { version = "0.23", features = ["abi3-py39"] }
quote = "1"
syn = { version = "2", features = ["full"] }
uuid = { version = "1", features = ["v4"] }
