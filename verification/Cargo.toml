[package]
name = "fs3ds"
version = "0.1.0"
edition = "2021"

[dependencies]
vfs = "0.2"
