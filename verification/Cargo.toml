[package]
name = "ethernet_driver"
version = "0.1.0"
edition = "2021"
publish = false

[dependencies]
volatile = "0.2"
byteorder = "1"
smoltcp = "*"
