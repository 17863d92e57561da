[package]
name = "disk_lock"
version = "0.1.0"
edition = "2021"
publish = false

[dependencies]
lazy_static = "*"
parking_lot = "*"
positioned-io = "*"
