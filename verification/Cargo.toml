[package]
name = "release-monitor"
version = "0.1.0"
edition = "2021"
publish = false

[dependencies]
bson = "2"
regex = "1"
mongodb = { version = "3", features = ["sync"] }
hyper = "0.10"
rustc-serialize = "0.3"
