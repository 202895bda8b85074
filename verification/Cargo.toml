[package]
name = "caprice"
version = "0.1.0"
edition = "2021"
publish = false

[dependencies]
crossterm = "0.19"
exitcode = "1"
regex = "1"
