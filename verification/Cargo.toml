[package]
name = "orecchiette_hackrf"
version = "0.1.0"
edition = "2021"
publish = false

[dependencies]
anyhow = "1"
crossbeam = "0.8"
hackrfone = "0.4"
num-complex = "0.4"
tracing = "0.1"
