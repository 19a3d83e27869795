[package]
name = "kontracts_executor"
version = "0.1.0"
edition = "2021"
rust-version = "1.95"
publish = false

[dependencies]
parity-scale-codec = { version = "=3.7.5", features = ["derive"] }
sp-core = { version = "=43.0.0", default-features = false }
wasmtime = { version = "=47.0.4", default-features = false, features = ["cranelift", "runtime", "std", "wat"] }
