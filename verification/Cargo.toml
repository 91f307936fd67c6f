[package]
name = "vn_record"
version = "0.1.0"
edition = "2021"
publish = false

[dependencies]
duct = "*"
xcap = "*"
