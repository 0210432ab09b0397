[package]
name = "geode"
version = "0.1.0"
edition = "2021"
publish = false

[dependencies]
fastrand = "2"
fnv = "1"
hibitset = { version = "0.6", default-features = false }
log = "0.4"
parking_lot = "0.12"
