[package]
name = "store_lowering"
version = "0.1.0"
edition = "2021"
publish = false
