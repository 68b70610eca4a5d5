[package]
name = "kernel"
version = "0.1.0"
edition = "2021"
publish = false

[dependencies]
block_device = "*"
byteorder = "=1.5.0"
fat32 = "=0.2.0"
stack-vec = "=0.1.0"
volatile = "=0.2.7"
xmodem = "=0.4.0"
