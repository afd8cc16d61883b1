[package]
name = "stringpy"
version = "0.1.0"
edition = "2021"
publish = false

[dependencies]
regex = "1"
unidecode = "0.3"
itertools = "0.10"
arrow2 = { version = "0.17", default-features = false }
pyo3 = { version = "0.18", features = ["extension-module"] }
