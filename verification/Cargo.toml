[package]
name = "ztar_rod"
version = "0.1.0"
edition = "2021"
publish = false

[dependencies]
png = "0.17"
