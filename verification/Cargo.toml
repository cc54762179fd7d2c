[package]
name = "dex-bytecode"
version = "0.1.0"
edition = "2021"
publish = false

[dependencies]
clap = { version = "4", features = ["derive"] }
colored = "2"
log = "0.4"
simple_logger = "4"
pyo3 = "0.22"
