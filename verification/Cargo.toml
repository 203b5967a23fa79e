[package]
name = "skid_core"
version = "0.1.0"
edition = "2021"
publish = false

[dependencies]
image = "*"
once_cell = "*"
