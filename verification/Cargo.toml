[package]
name = "kiri"
version = "0.1.0"
edition = "2021"

[dependencies]
cobs = "0.2"
crc = "3"
rand = "0.8"
