[package]
name = "fat_lto"
version = "0.1.0"
edition = "2021"
publish = false

[dependencies]
object = "*"
tempfile = "*"
gccjit = "*"
