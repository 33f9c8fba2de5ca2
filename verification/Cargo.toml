[package]
name = "zephyrus"
version = "0.1.0"
edition = "2021"
publish = false

[dependencies]
parking_lot = "=0.12.5"
twilight-http = { version = "=0.13.3", default-features = false }
twilight-model = "=0.13.7"
