[package]
name = "framelaw"
version = "0.1.0"
edition = "2021"
publish = false

[dependencies]
polars = { version = "*", default-features = false }
pyo3 = "*"
pyo3-polars = "*"
rayon = "*"
regex = "*"
