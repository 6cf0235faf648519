[package]
name = "tiflash_proxy"
version = "0.1.0"
edition = "2021"
publish = false

[dependencies]
hex = "0.4"
protobuf = "2"
slog = "2"
