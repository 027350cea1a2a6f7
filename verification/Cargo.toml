[package]
name = "meyer_cross"
version = "0.1.0"
edition = "2021"
publish = false

[dependencies]
rand = "0.8"
thiserror = "1"
num-derive = "0.4"
num-traits = "0.2"
