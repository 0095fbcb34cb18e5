[package]
name = "village_tui"
version = "0.1.0"
edition = "2021"
publish = false

[dependencies]
animaterm = "0.2.9"
async-std = "1.13.2"
