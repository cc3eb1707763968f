[package]
name = "sknk"
version = "0.1.0"
edition = "2021"
publish = false

[dependencies]
ch32-hal = "*"
qingke-rt = "*"
panic-halt = "*"
