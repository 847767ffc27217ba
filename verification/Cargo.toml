[package]
name = "ron"
version = "0.1.0"
edition = "2021"
publish = false

[dependencies]
time = "0.1"
log = "0.4"
rand = "0.8"
