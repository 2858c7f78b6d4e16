[package]
name = "chip8_vm"
version = "0.1.0"
edition = "2021"

[dependencies]
rand = "0.8"
