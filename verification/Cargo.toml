[package]
name = "climb"
version = "0.1.0"
edition = "2021"

[dependencies]
colored = "2"
