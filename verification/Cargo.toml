[package]
name = "pgfplots"
version = "0.1.0"
edition = "2021"
publish = false

[dependencies]
opener = "*"
rand = "0.8"
tempfile = "3"
thiserror = "1"
