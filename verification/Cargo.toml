[package]
name = "fd_reactor"
version = "0.1.0"
edition = "2021"

[dependencies]
libc = "0.2"
once_cell = "1"
