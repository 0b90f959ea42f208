[package]
name = "estatus"
version = "0.1.0"
edition = "2021"

[dependencies]
md-5 = "0.8"
