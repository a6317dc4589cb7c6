[package]
name = "teltonika_codec8"
version = "0.1.0"
edition = "2021"
publish = false

[dependencies]
crc = "3"
nom = "7"

[dev-dependencies]
hex = "0.4"
