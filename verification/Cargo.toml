[package]
name = "mdm_core"
version = "0.1.0"
edition = "2021"
publish = false

[dependencies]
flate2 = "*"
sha2 = "*"
cfb = "*"
