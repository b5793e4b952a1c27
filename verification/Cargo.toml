[package]
name = "dive"
version = "0.1.0"
edition = "2021"
publish = false

[dependencies]
glob = "*"
regex = "*"
getopts = "*"
ignore = "*"
