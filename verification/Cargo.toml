[package]
name = "ts_bind"
version = "0.1.0"
edition = "2021"
publish = false

[dependencies]
anyhow = "1"
convert_case = "*"
proc-macro2 = "1"
quote = "1"
syn = "2"
