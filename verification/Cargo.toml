[package]
name = "host_dispatch"
version = "0.1.0"
edition = "2021"
publish = false

[dependencies]
neon = "1"
num_cpus = "1"
serde = { version = "1", features = ["derive"] }
serde_json = "1"
