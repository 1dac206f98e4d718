[package]
name = "gitwasm"
version = "0.3.0"
edition = "2021"
publish = false

[dependencies]
anyhow = "=1.0.104"
regex = "=1.13.1"
tempfile = "=3.27.0"
wasmtime = "=46.0.3"
wasmtime-wasi = "=46.0.3"
