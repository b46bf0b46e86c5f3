[package]
name = "symphonia_adapters"
version = "0.1.0"
edition = "2021"
publish = false

[dependencies]
fdk-aac = "=0.8.0"
symphonia-core = "=0.6.1"
