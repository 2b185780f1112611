[package]
name = "stacked_borrows"
version = "0.1.0"
edition = "2021"
publish = false

[dependencies]
smallvec = "1"
libc = "0.2"
libffi = "3"
libloading = "0.7"
log = "0.4"
