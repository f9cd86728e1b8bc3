[package]
name = "peerlink"
version = "0.1.0"
edition = "2021"
publish = false

[dependencies]
parking_lot = "0.12"
socket2 = { version = "0.4", features = ["all"] }
tracing = "0.1"
