[package]
name = "jsonish"
version = "0.1.0"
edition = "2021"
publish = false

[dependencies]
anyhow = "1.0"
indexmap = "2.1.0"
log = "0.4.20"
minijinja = "1.0.16"
