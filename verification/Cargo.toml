[package]
name = "wasi_sensor"
version = "0.1.0"
edition = "2021"
publish = false

[dependencies]
tokio = { version = "1", features = ["sync", "rt", "macros", "time"] }
image = { version = "0.24", default-features = false, features = ["jpeg"] }
fraction = "0.15"
anyhow = "1"
getopts = "0.2"
async-trait = "0.1"
tracing = "0.1"
tracing-subscriber = "0.3"
wasmtime = "17"
wasmtime-wasi = "17"
wit-bindgen = "0.16"
