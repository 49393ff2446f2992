[package]
name = "context_tracker"
version = "0.1.0"
edition = "2021"
publish = false

[dependencies]
glutin = "0.26"
