[package]
name = "qasm3_front"
version = "0.1.0"
edition = "2021"
publish = false

[dependencies]
rustc-hash = "1"
num-bigint = "0.4"
num-traits = "0.2"
num-complex = "0.4"
rand = "0.8"
