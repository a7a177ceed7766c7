[package]
name = "packed_data"
version = "0.1.0"
edition = "2021"
publish = false

[dependencies]
skiplist = "=0.4.0"
