[package]
name = "face_gate"
version = "0.1.0"
edition = "2021"
publish = false

[dependencies]
candid = "*"
ic-cdk = "*"
ic-stable-structures = "*"
ic-wasi-polyfill = "*"
