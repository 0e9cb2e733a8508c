[package]
name = "sweldo_sync"
version = "0.1.0"
edition = "2021"
publish = false

[dependencies]
chrono = "0.4"
csv = "1"
rust_decimal = "1"
