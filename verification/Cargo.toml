[package]
name = "evalrus"
version = "0.1.0"
edition = "2021"
publish = false

[dependencies]
memalloc = "0.1.0"
