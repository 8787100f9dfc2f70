[package]
name = "syntaxdot_ffi"
version = "0.1.0"
edition = "2021"
publish = false

[dependencies]
prost = "*"
ffi-support = "*"
lazy_static = "*"
udgraph = "*"
