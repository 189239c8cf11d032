[package]
name = "datir"
version = "0.1.0"
edition = "2021"
publish = false
