[package]
name = "deserr"
version = "0.1.0"
edition = "2021"
publish = false

[dependencies]
indexmap = "=2.14.2"
serde_yml = "=0.0.13"
