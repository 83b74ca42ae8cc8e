[package]
name = "netlink"
version = "0.1.0"
edition = "2021"

[dependencies]
bitflags = "1"
byteorder = "1"
libc = "0.2"
