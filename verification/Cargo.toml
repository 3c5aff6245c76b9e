[package]
name = "qt_ritual_build"
version = "0.1.0"
edition = "2021"
publish = false

[dependencies]
semver = "*"
env_logger = "*"
