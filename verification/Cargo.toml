[package]
name = "ibc_client_core"
version = "0.1.0"
edition = "2021"
publish = false

[dependencies]
subtle-encoding = "*"
