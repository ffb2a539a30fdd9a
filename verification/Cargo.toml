[package]
name = "fire_control"
version = "0.1.0"
edition = "2021"
publish = false

[dependencies]
oort_api = "*"
