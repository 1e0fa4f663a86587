[package]
name = "rune"
version = "0.1.0"
edition = "2021"
publish = false

[dependencies]
cranelift = "0.120"
cranelift-frontend = "0.120"
cranelift-jit = "0.120"
cranelift-module = "0.120"
cranelift-native = "0.120"
cranelift-object = "0.120"
