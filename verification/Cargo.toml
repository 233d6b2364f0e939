[package]
name = "beacon_codec"
version = "0.1.0"
edition = "2021"
publish = false

[dependencies]
encoding_rs = "0.8"
rocket = "0.5"
