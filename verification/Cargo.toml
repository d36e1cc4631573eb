[package]
name = "geoprop"
version = "0.1.0"
edition = "2021"
publish = false

[dependencies]
h3o = "=0.11.0"
pyo3 = "=0.20.3"
rayon = "=1.12.0"
