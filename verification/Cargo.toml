[package]
name = "sigil"
version = "0.1.0"
edition = "2021"
publish = false

[dependencies]
rpds = "=1.2.1"
thiserror = "=1.0.69"
