[package]
name = "adsr"
version = "0.1.0"
edition = "2021"
publish = false

[dependencies]
dasp_signal = "*"
