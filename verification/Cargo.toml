[package]
name = "fastboot"
version = "0.1.0"
edition = "2021"
publish = false

[dependencies]
nusb = "0.1"
async-io = "2"
futures-lite = "2"
