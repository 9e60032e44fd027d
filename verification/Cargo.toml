[package]
name = "organizador_archivos"
version = "0.1.0"
edition = "2021"
publish = false

[dependencies]
colored = "2"
notify-rust = "4"
walkdir = "2"
