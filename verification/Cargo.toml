[package]
name = "ned"
version = "1.0.0"
edition = "2021"
publish = false

[dependencies]
ansi_term = "0.12"
getopts = "0.2"
glob = "0.3"
regex = "1"
walkdir = "2"
