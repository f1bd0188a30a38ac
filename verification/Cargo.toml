[package]
name = "abi_cafe"
version = "0.1.0"
edition = "2021"
publish = false

[dependencies]
kdl = "4.6"
petgraph = "0.6"
rand = "0.8"
rand_core = "0.6"
rand_pcg = "0.3"
linked-hash-map = "0.5"
miette = "5"
