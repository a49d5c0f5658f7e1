[package]
name = "trust_sessions"
version = "0.1.0"
edition = "2021"
publish = false

[dependencies]
hex = "=0.4.3"
minicbor = { version = "=2.3.0", features = ["alloc"] }
