[package]
name = "malus"
version = "0.1.0"
edition = "2021"
publish = false

[dependencies]
ariadne = "0.4"
cranelift-codegen = "0.116"
cranelift-frontend = "0.116"
cranelift-jit = "0.116"
cranelift-module = "0.116"
cranelift-native = "0.116"
objc2 = "0.6"
objc2-foundation = "0.3"
objc2-metal = "0.3"
objc2-metal-performance-shaders = "0.3"
