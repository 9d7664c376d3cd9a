[package]
name = "apollo_composition"
version = "0.1.0"
edition = "2021"
publish = false

[dependencies]
apollo-compiler = "1"
