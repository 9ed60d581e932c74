[package]
name = "diane"
version = "0.1.0"
edition = "2021"
publish = false

[dependencies]
embedded-sdmmc = "0.8"
utc-dt = "*"
