[package]
name = "rvmi"
version = "0.1.0"
edition = "2021"
publish = false

[dependencies]
rustc_apfloat = "*"
text_io = "*"
