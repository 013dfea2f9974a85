[package]
name = "sinkfmt"
version = "0.1.0"
edition = "2021"
publish = false

[dependencies]
cty = "=0.2.2"
