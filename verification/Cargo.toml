[package]
name = "libpsi"
version = "0.1.0"
edition = "2021"
publish = false

[dependencies]
lazy_static = "1"
libm = "0.2"
term_size = "0.3"
