[package]
name = "swapvec"
version = "0.1.0"
edition = "2021"
publish = false

[dependencies]
tempfile = "*"
lz4_flex = "*"
miniz_oxide = "*"
