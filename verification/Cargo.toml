[package]
name = "aaf"
version = "0.1.0"
edition = "2021"
publish = false

[dependencies]
anymap = "*"
byteorder = "1"
cfb = "*"
encoding = "0.2"
uuid = "*"
