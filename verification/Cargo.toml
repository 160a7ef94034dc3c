[package]
name = "llama_lazy"
version = "0.1.0"
edition = "2021"
publish = false

[dependencies]
dfdx = { version = "=0.12.1", features = ["f16"] }
half = "=2.7.1"
