[package]
name = "bluejay_rb"
version = "0.1.0"
edition = "2021"
publish = false

[dependencies]
convert_case = "0.6"
magnus = "0.5"
bluejay-core = "*"
bluejay-parser = "*"
