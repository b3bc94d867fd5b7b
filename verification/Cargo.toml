[package]
name = "moonlight_bridge"
version = "0.1.0"
edition = "2021"
publish = false

[dependencies]
wasmtime = { version = "=47.0.4", default-features = false, features = ["cranelift", "runtime", "std", "wat"] }
anyhow = "=1.0.104"
log = "=0.4.34"
env_logger = "=0.11.11"
