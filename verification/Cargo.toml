[package]
name = "montecore"
version = "0.2.0"
edition = "2021"
publish = false

[dependencies]
ndarray = "*"
ndarray-linalg = "*"
ndarray-rand = "*"
num-traits = "*"
thiserror = "*"
