[package]
name = "evcore"
version = "0.1.0"
edition = "2021"
publish = false
