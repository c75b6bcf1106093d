[package]
name = "strided_array"
version = "0.1.0"
edition = "2021"
publish = false

[dependencies]
matrixmultiply = "0.3"
