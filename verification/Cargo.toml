[package]
name = "hexapod"
version = "0.1.0"
edition = "2021"
publish = false

[dependencies]
embedded-hal = "1.0"
log = "0.4"
esp-idf-svc = "*"
