[package]
name = "oneko"
version = "0.1.0"
edition = "2021"
publish = false

[dependencies]
smithay-client-toolkit = { version = "=0.19.2", default-features = false }
minifb = "=0.27.0"
device_query = "=2.1.0"
core-graphics = "=0.23.2"
