[package]
name = "bindgen_ir"
version = "0.1.0"
edition = "2021"
publish = false

[dependencies]
regex = "=1.13.1"
clang-sys = { version = "=1.9.1", features = ["runtime", "clang_9_0"] }
