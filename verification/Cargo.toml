[package]
name = "serde_sexpr"
version = "0.1.0"
edition = "2021"
publish = false

[dependencies]
serde = "1"
