[package]
name = "ersatz"
version = "0.1.0"
edition = "2021"
publish = false

[dependencies]
rand = "0.8"
rawsock = "0.3"
once_cell = "1"
crossbeam-utils = "0.8"
thiserror = "1"
