[package]
name = "cranelift_expr"
version = "0.1.0"
edition = "2021"
publish = false

[dependencies]
cranelift = "=0.123.19"
cranelift-frontend = "=0.123.19"
cranelift-jit = "=0.123.19"
cranelift-module = "=0.123.19"
rand = "=0.8.8"

[dev-dependencies]
cranelift-interpreter = "=0.123.19"
