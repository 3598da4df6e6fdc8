[package]
name = "blackbox_log"
version = "0.1.0"
edition = "2021"
publish = false

[dependencies]
memchr = "*"
lexopt = "*"
uom = "*"
