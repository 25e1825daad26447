[package]
name = "dlt"
version = "0.1.0"
edition = "2021"
publish = false

[dependencies]
humantime = "2"
rustc_apfloat = "*"
