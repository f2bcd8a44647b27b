[package]
name = "resume_gateway"
version = "0.1.0"
edition = "2021"
publish = false

[dependencies]
rocket = "=0.5.2"
rocket_http = "=0.5.2"
