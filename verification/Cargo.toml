[package]
name = "jpeg2k-sandboxed"
version = "0.9.1"
edition = "2021"
publish = false

[dependencies]
anyhow = "=1.0.104"
image = { version = "=0.24.9", default-features = false }
jpeg2k = { version = "=0.10.1", default-features = false, features = ["openjp2", "strict-mode"] }
log = "=0.4.34"
wasi-common = "=14.0.4"
wasmtime = { version = "=14.0.4", default-features = false, features = ["cranelift"] }
wasmtime-wasi = { version = "=14.0.4", default-features = false, features = ["sync"] }

[dev-dependencies]
rmp-serde = "=1.3.1"
serde = "=1.0.229"
