[package]
name = "iced_timeline"
version = "0.1.0"
edition = "2021"
publish = false

[dependencies]
iced_graphics = "0.1"
iced_native = "0.3"
