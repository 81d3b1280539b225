[package]
name = "adder_treesitter_cranelift"
version = "0.1.0"
edition = "2021"
publish = false

[dependencies]
ahash = "=0.8.12"
cranelift = "=0.115.1"
cranelift-jit = "=0.115.1"
cranelift-module = "=0.115.1"
cranelift-native = "=0.115.1"
crossterm = "=0.28.1"
dashmap = "=6.2.1"
fastrand = "=2.5.0"
miette = { version = "=7.6.0", features = ["fancy"] }
parking_lot = "=0.12.5"
rand = "=0.9.5"
streaming-iterator = "=0.1.9"
thiserror = "=2.0.21"
tree-sitter = "=0.24.7"

[dev-dependencies]
cranelift-interpreter = "=0.115.1"
cranelift-reader = "=0.115.1"
