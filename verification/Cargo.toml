[package]
name = "nnfw_matrix"
version = "0.1.0"
edition = "2021"
publish = false

[dependencies]
rustc_apfloat = "*"
rand = "*"
