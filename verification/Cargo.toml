[package]
name = "rustpy_compiler"
version = "0.1.0"
edition = "2021"
publish = false

[dependencies]
unicode-normalization = "0.1"
unicode-xid = "0.2"
