[package]
name = "collar_tx"
version = "0.1.0"
edition = "2021"
publish = false

[dependencies]
esp-idf-hal = "*"
esp-idf-svc = "*"
esp-idf-sys = "*"
libc = "*"
