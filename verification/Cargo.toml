[package]
name = "boa_engine"
version = "0.1.0"
edition = "2021"
publish = false

[dependencies]
bitflags = "2"
boa_gc = "0.17"
boa_interner = "0.17"
boa_parser = "0.17"
boa_profiler = "0.17"
rustc-hash = "1"
ryu-js = "0.2"
thin-vec = "0.2"
