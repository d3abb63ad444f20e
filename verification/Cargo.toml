[package]
name = "paging_core"
version = "0.1.0"
edition = "2021"
publish = false

[dependencies]
raw-cpuid = "=11.6.0"
x86_64 = { version = "=0.15.5", default-features = false, features = ["instructions"] }
bincode = { version = "=2.0.1", features = ["derive"] }
