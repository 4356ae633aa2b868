[package]
name = "invsqrt_solver"
version = "0.1.0"
edition = "2021"
publish = false

[dependencies]
argmin = "0.4"
