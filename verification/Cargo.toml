[package]
name = "led5011as"
version = "0.1.0"
edition = "2021"

[dependencies]
embedded-hal = "1"
