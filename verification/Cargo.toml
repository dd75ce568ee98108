[package]
name = "memory_air"
version = "0.1.0"
edition = "2021"
publish = false

[dependencies]
stwo = "=2.3.0"
stwo-constraint-framework = "=2.3.0"
