[package]
name = "kernel_core"
version = "0.1.0"
edition = "2021"
publish = false

[dependencies]
hashbrown = { version = "=0.14.5", features = ["serde"] }
postcard = { version = "=1.1.3", default-features = false, features = ["alloc"] }
serde = { version = "=1.0.229", default-features = false, features = ["derive", "alloc"] }
uuid = { version = "=1.29.0", default-features = false }
spin = "=0.9.9"
log = "=0.4.34"
