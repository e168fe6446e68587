[package]
name = "nucleo_picker"
version = "0.1.0"
edition = "2021"
publish = false

[dependencies]
unicode-segmentation = "1"
unicode-width = "0.2"
memchr = "2"
nucleo = "0.5"
crossterm = "0.28"
parking_lot = "0.12"
tracing = "0.1"
