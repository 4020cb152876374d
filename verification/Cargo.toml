[package]
name = "tower_snark"
version = "0.1.0"
edition = "2021"
publish = false
