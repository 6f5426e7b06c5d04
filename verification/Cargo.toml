[package]
name = "xlsx_rust"
version = "0.1.0"
edition = "2021"
publish = false

[dependencies]
rust_xlsxwriter = "=0.101.0"
pyo3 = { version = "=0.30.1", features = ["abi3-py39"] }

[dev-dependencies]
zip = { version = "=9.1.0", default-features = false, features = ["deflate"] }
