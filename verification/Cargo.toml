[package]
name = "graphics"
version = "0.1.0"
edition = "2021"
publish = false

[dependencies]
glow = "0.17"
khronos-egl = { version = "6", features = ["dynamic"] }
smallvec = "1"
tracing = "0.1"
