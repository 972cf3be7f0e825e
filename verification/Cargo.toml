[package]
name = "sh1108"
version = "0.1.0"
edition = "2021"
publish = false

[dependencies]
display-interface = "0.5"
