[package]
name = "muskitty_cssom"
version = "0.1.0"
edition = "2021"
publish = false

[dependencies]
muskitty-css = "*"
muskitty-dom = "*"
