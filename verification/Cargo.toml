[package]
name = "clippy-reviewdog-filter"
version = "0.1.1"
edition = "2021"
publish = false

[dependencies]
clap = "4"
env_logger = "*"
semver = "1"
serde_json = "1"
xml-rs = "0.8"
