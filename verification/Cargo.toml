[package]
name = "plugin_runtime"
version = "0.1.0"
edition = "2021"
publish = false

[dependencies]
anyhow = "=1.0.104"
image = "=0.25.10"
tracing = "=0.1.44"
wasmtime = "=48.0.5"
wasmtime-wasi = "=48.0.5"
