[package]
name = "fastn"
version = "0.1.0"
edition = "2021"
publish = false

[dependencies]
camino = "=1.2.6"
mime_guess = "=2.0.5"
indexmap = "2"
